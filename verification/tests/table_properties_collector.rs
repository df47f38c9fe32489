use rust_rocksdb::property_map::PropertyMap;
use rust_rocksdb::raw_bytes::RawBytes;
use rust_rocksdb::table_properties_collector::{
    add_callback, bytes_from_raw, decode_entry, finish_callback, readable_callback, DBEntryType,
    ForwardAction, PropertyForwarder, TablePropertiesCollector,
};
use rust_rocksdb::table_properties_collector_factory::{
    collector_context, create_callback, TablePropertiesCollectorContext,
    TablePropertiesCollectorFactory,
};

enum Props {
    NumKeys,
    NumPuts,
    NumMerges,
    NumDeletes,
}

fn encode_u32(x: u32) -> Vec<u8> {
    x.to_le_bytes().to_vec()
}

fn decode_u32(x: &[u8]) -> u32 {
    let mut dst = [0u8; 4];
    dst.copy_from_slice(&x[..4]);
    u32::from_le_bytes(dst)
}

struct ExampleCollector {
    num_keys: u32,
    num_puts: u32,
    num_merges: u32,
    num_deletes: u32,
    last_key: Vec<u8>,
}

impl ExampleCollector {
    fn new() -> ExampleCollector {
        ExampleCollector {
            num_keys: 0,
            num_puts: 0,
            num_merges: 0,
            num_deletes: 0,
            last_key: Vec::new(),
        }
    }

    fn encode(&self) -> PropertyMap {
        let mut props = PropertyMap::new();
        props.insert(vec![Props::NumKeys as u8], encode_u32(self.num_keys));
        props.insert(vec![Props::NumPuts as u8], encode_u32(self.num_puts));
        props.insert(vec![Props::NumMerges as u8], encode_u32(self.num_merges));
        props.insert(vec![Props::NumDeletes as u8], encode_u32(self.num_deletes));
        props
    }

    fn decode(props: &PropertyMap) -> ExampleCollector {
        assert!(!props.is_empty());
        let mut c = ExampleCollector::new();
        c.num_keys = decode_u32(props.get(&[Props::NumKeys as u8]).unwrap());
        c.num_puts = decode_u32(props.get(&[Props::NumPuts as u8]).unwrap());
        c.num_merges = decode_u32(props.get(&[Props::NumMerges as u8]).unwrap());
        c.num_deletes = decode_u32(props.get(&[Props::NumDeletes as u8]).unwrap());

        for (k, v) in props.as_pairs() {
            assert_eq!(v, props.get(k).unwrap());
        }
        assert!(props
            .get(&[Props::NumKeys as u8, Props::NumPuts as u8])
            .is_none());
        assert!(props.len() >= 4);

        c
    }
}

impl TablePropertiesCollector for ExampleCollector {
    fn add(&mut self, key: &[u8], _: &[u8], entry_type: DBEntryType, _: u64, _: u64) {
        if key != self.last_key.as_slice() {
            self.num_keys += 1;
            self.last_key.clear();
            self.last_key.extend_from_slice(key);
        }
        match entry_type {
            DBEntryType::Put => self.num_puts += 1,
            DBEntryType::Merge => self.num_merges += 1,
            DBEntryType::Delete | DBEntryType::SingleDelete => self.num_deletes += 1,
            _ => {}
        }
    }

    fn finish(&mut self) -> PropertyMap {
        self.encode()
    }

    fn name(&self) -> &[u8] {
        b"example-collector"
    }
}

struct ExampleFactory {}

impl ExampleFactory {
    fn new() -> ExampleFactory {
        ExampleFactory {}
    }
}

impl TablePropertiesCollectorFactory for ExampleFactory {
    type Collector = ExampleCollector;

    fn create(&self, _context: TablePropertiesCollectorContext) -> Self::Collector {
        ExampleCollector::new()
    }

    fn name(&self) -> &[u8] {
        b"example-factory"
    }
}

struct ProbeCollector;

impl TablePropertiesCollector for ProbeCollector {
    fn name(&self) -> &[u8] {
        b"probe-collector"
    }

    fn add(
        &mut self,
        _key: &[u8],
        _value: &[u8],
        _entry_type: DBEntryType,
        _sequence: u64,
        _file_size: u64,
    ) {
    }

    fn finish(&mut self) -> PropertyMap {
        PropertyMap::new()
    }
}

#[test]
fn test_table_properties_collector_basic() {
    let mut collector = ExampleCollector::new();

    collector.add(b"key1", b"value1", DBEntryType::Put, 1, 100);
    collector.add(b"key2", b"value2", DBEntryType::Put, 2, 100);
    collector.add(b"key3", b"value3", DBEntryType::Delete, 3, 100);
    collector.add(b"key4", b"value4", DBEntryType::Merge, 4, 100);

    let props = collector.finish();

    let decoded = ExampleCollector::decode(&props);
    assert_eq!(decoded.num_keys, 4);
    assert_eq!(decoded.num_puts, 2);
    assert_eq!(decoded.num_merges, 1);
    assert_eq!(decoded.num_deletes, 1);

    assert_eq!(
        std::str::from_utf8(collector.name()).unwrap(),
        "example-collector"
    );
}

#[test]
fn test_table_properties_collector_factory_basic() {
    let factory = ExampleFactory::new();

    let context = TablePropertiesCollectorContext {
        column_family_id: 0,
        level_at_creation: 0,
        num_levels: 7,
        last_level_inclusive_max_seqno_threshold: 0,
    };

    let collector = factory.create(context);

    assert_eq!(
        std::str::from_utf8(collector.name()).unwrap(),
        "example-collector"
    );
    assert_eq!(
        std::str::from_utf8(factory.name()).unwrap(),
        "example-factory"
    );
}

#[test]
fn test_table_properties_collector_duplicate_keys() {
    let mut collector = ExampleCollector::new();

    collector.add(b"key1", b"value1", DBEntryType::Put, 1, 100);
    collector.add(b"key1", b"value2", DBEntryType::Put, 2, 100);
    collector.add(b"key1", b"value3", DBEntryType::Put, 3, 100);

    let props = collector.finish();
    let decoded = ExampleCollector::decode(&props);

    assert_eq!(decoded.num_keys, 1);
    assert_eq!(decoded.num_puts, 3);
}

#[test]
fn collector_context_preserves_every_rocksdb_field() {
    let context = TablePropertiesCollectorContext {
        column_family_id: 7,
        level_at_creation: 3,
        num_levels: 8,
        last_level_inclusive_max_seqno_threshold: 42,
    };

    assert_eq!(context.column_family_id, 7);
    assert_eq!(context.level_at_creation, 3);
    assert_eq!(context.num_levels, 8);
    assert_eq!(context.last_level_inclusive_max_seqno_threshold, 42);
}

#[test]
fn db_entry_type_maps_known_and_unknown_rocksdb_values() {
    let known = [
        DBEntryType::Put,
        DBEntryType::Delete,
        DBEntryType::SingleDelete,
        DBEntryType::Merge,
        DBEntryType::RangeDeletion,
        DBEntryType::BlobIndex,
        DBEntryType::DeleteWithTimestamp,
        DBEntryType::WideColumnEntity,
        DBEntryType::TimedPut,
    ];

    for (raw, expected) in known.into_iter().enumerate() {
        assert_eq!(expected as u8, raw as u8);
        assert_eq!(DBEntryType::from(raw as u8), expected);
    }
    assert_eq!(DBEntryType::Other as u8, 9);
    assert_eq!(DBEntryType::from(9), DBEntryType::Other);
    assert_eq!(DBEntryType::from(u8::MAX), DBEntryType::Other);
}

#[test]
fn readable_properties_default_to_empty() {
    assert!(ProbeCollector.get_readable_properties().is_empty());
}

#[test]
fn entry_type_codes_round_trip() {
    for code in 0u8..=9 {
        assert_eq!(DBEntryType::from(code) as u8, code);
    }
    for code in 10u8..=255 {
        assert_eq!(DBEntryType::from(code), DBEntryType::Other);
    }
}

#[test]
fn bytes_from_raw_accepts_null_only_when_empty() {
    assert_eq!(bytes_from_raw(RawBytes::Null { len: 0 }), Some(Vec::new()));
    assert_eq!(bytes_from_raw(RawBytes::Null { len: 3 }), None);
    assert_eq!(
        bytes_from_raw(RawBytes::Bytes(b"a\0b".to_vec())),
        Some(b"a\0b".to_vec())
    );
    assert_eq!(bytes_from_raw(RawBytes::Bytes(Vec::new())), Some(Vec::new()));
}

#[test]
fn decode_entry_keeps_every_argument() {
    let e = decode_entry(
        RawBytes::Bytes(b"k".to_vec()),
        RawBytes::Null { len: 0 },
        3,
        11,
        12,
    )
    .unwrap();
    assert_eq!(e.key, b"k".to_vec());
    assert_eq!(e.value, Vec::<u8>::new());
    assert_eq!(e.entry_type, DBEntryType::Merge);
    assert_eq!(e.sequence, 11);
    assert_eq!(e.file_size, 12);
    assert!(decode_entry(
        RawBytes::Null { len: 1 },
        RawBytes::Bytes(Vec::new()),
        0,
        0,
        0
    )
    .is_none());
    assert!(decode_entry(
        RawBytes::Bytes(Vec::new()),
        RawBytes::Null { len: 1 },
        0,
        0,
        0
    )
    .is_none());
}

struct RecordingCollector {
    seen: Vec<(Vec<u8>, Vec<u8>, DBEntryType, u64, u64)>,
    finished: PropertyMap,
    readable: PropertyMap,
}

impl RecordingCollector {
    fn new() -> RecordingCollector {
        let mut finished = PropertyMap::new();
        finished.insert(b"k1".to_vec(), b"v1".to_vec());
        finished.insert(b"k2".to_vec(), b"v2".to_vec());
        let mut readable = PropertyMap::new();
        readable.insert(b"readable".to_vec(), b"value".to_vec());
        RecordingCollector {
            seen: Vec::new(),
            finished,
            readable,
        }
    }
}

impl TablePropertiesCollector for RecordingCollector {
    fn name(&self) -> &[u8] {
        b"recording"
    }

    fn add(&mut self, key: &[u8], value: &[u8], entry_type: DBEntryType, seq: u64, size: u64) {
        self.seen
            .push((key.to_vec(), value.to_vec(), entry_type, seq, size));
    }

    fn finish(&mut self) -> PropertyMap {
        self.finished.copy()
    }

    fn get_readable_properties(&self) -> PropertyMap {
        self.readable.copy()
    }
}

#[test]
fn add_callback_forwards_decoded_entries() {
    let mut c = RecordingCollector::new();
    let status = add_callback(
        Some(&mut c),
        RawBytes::Bytes(b"key".to_vec()),
        RawBytes::Bytes(b"value".to_vec()),
        0,
        11,
        12,
    );
    assert_eq!(status, 1);
    assert_eq!(
        c.seen,
        vec![(b"key".to_vec(), b"value".to_vec(), DBEntryType::Put, 11, 12)]
    );

    let status = add_callback(
        Some(&mut c),
        RawBytes::Null { len: 0 },
        RawBytes::Null { len: 0 },
        200,
        1,
        2,
    );
    assert_eq!(status, 1);
    assert_eq!(
        c.seen[1],
        (Vec::new(), Vec::new(), DBEntryType::Other, 1, 2)
    );

    let status = add_callback(
        Some(&mut c),
        RawBytes::Null { len: 4 },
        RawBytes::Bytes(Vec::new()),
        0,
        1,
        2,
    );
    assert_eq!(status, 0);
    assert_eq!(c.seen.len(), 2);

    let status = add_callback::<RecordingCollector>(
        None,
        RawBytes::Bytes(Vec::new()),
        RawBytes::Bytes(Vec::new()),
        0,
        1,
        2,
    );
    assert_eq!(status, 0);
}

/// Runs a forwarder against a sink that accepts the first `accept` pairs.
fn run_forwarder(mut f: PropertyForwarder, accept: usize) -> (Vec<(Vec<u8>, Vec<u8>)>, u8) {
    let mut sent = Vec::new();
    loop {
        let next = match f.next_action() {
            ForwardAction::Send { key, value } => Some((key.to_vec(), value.to_vec())),
            ForwardAction::Done { status } => return (sent, status),
        };
        let pair = next.unwrap();
        let accepted = sent.len() < accept;
        if accepted {
            sent.push(pair);
        }
        f.record(accepted);
    }
}

#[test]
fn finish_callback_forwards_every_property_once() {
    let mut c = RecordingCollector::new();
    let (sent, status) = run_forwarder(finish_callback(Some(&mut c), true), usize::MAX);
    assert_eq!(status, 1);
    assert_eq!(
        sent,
        vec![
            (b"k1".to_vec(), b"v1".to_vec()),
            (b"k2".to_vec(), b"v2".to_vec())
        ]
    );
}

#[test]
fn finish_callback_stops_at_the_first_refusal() {
    let mut c = RecordingCollector::new();
    let (sent, status) = run_forwarder(finish_callback(Some(&mut c), true), 1);
    assert_eq!(status, 0);
    assert_eq!(sent, vec![(b"k1".to_vec(), b"v1".to_vec())]);

    let (sent, status) = run_forwarder(finish_callback(Some(&mut c), false), usize::MAX);
    assert_eq!(status, 0);
    assert!(sent.is_empty());

    let (sent, status) =
        run_forwarder(finish_callback::<RecordingCollector>(None, true), usize::MAX);
    assert_eq!(status, 0);
    assert!(sent.is_empty());
}

#[test]
fn readable_callback_forwards_readable_properties() {
    let c = RecordingCollector::new();
    let (sent, status) = run_forwarder(readable_callback(Some(&c), true), usize::MAX);
    assert_eq!(status, 1);
    assert_eq!(sent, vec![(b"readable".to_vec(), b"value".to_vec())]);

    let (sent, status) = run_forwarder(readable_callback(Some(&ProbeCollector), true), usize::MAX);
    assert_eq!(status, 1);
    assert!(sent.is_empty());

    let (_, status) = run_forwarder(readable_callback(Some(&c), false), usize::MAX);
    assert_eq!(status, 0);
}

#[test]
fn forwarded_properties_read_back_as_the_same_map() {
    let mut c = RecordingCollector::new();
    let (sent, status) = run_forwarder(finish_callback(Some(&mut c), true), usize::MAX);
    assert_eq!(status, 1);
    let mut reversed = sent.clone();
    reversed.reverse();
    let read_back = PropertyMap::from_pairs(reversed);
    assert_eq!(read_back.len(), 2);
    assert_eq!(read_back.get(b"k1"), Some(&b"v1".to_vec()));
    assert_eq!(read_back.get(b"k2"), Some(&b"v2".to_vec()));
}

struct RecordingFactory {
    contexts: std::sync::Mutex<Vec<TablePropertiesCollectorContext>>,
}

impl TablePropertiesCollectorFactory for RecordingFactory {
    type Collector = ProbeCollector;

    fn create(&self, context: TablePropertiesCollectorContext) -> Self::Collector {
        self.contexts.lock().unwrap().push(context);
        ProbeCollector
    }

    fn name(&self) -> &[u8] {
        b"recording-factory"
    }
}

#[test]
fn create_callback_hands_the_native_context_to_create() {
    let factory = RecordingFactory {
        contexts: std::sync::Mutex::new(Vec::new()),
    };
    let collector = create_callback(Some(&factory), 0, 0, 7, (1u64 << 56) - 1);
    assert!(collector.is_some());
    let collector = create_callback(Some(&factory), 7, 3, 8, 42);
    assert!(collector.is_some());
    assert_eq!(
        *factory.contexts.lock().unwrap(),
        vec![
            TablePropertiesCollectorContext {
                column_family_id: 0,
                level_at_creation: 0,
                num_levels: 7,
                last_level_inclusive_max_seqno_threshold: 72057594037927935,
            },
            TablePropertiesCollectorContext {
                column_family_id: 7,
                level_at_creation: 3,
                num_levels: 8,
                last_level_inclusive_max_seqno_threshold: 42,
            },
        ]
    );
}

#[test]
fn add_callback_forwards_a_delete_entry() {
    let mut c = RecordingCollector::new();
    let status = add_callback(
        Some(&mut c),
        RawBytes::Bytes(b"delete-key".to_vec()),
        RawBytes::Null { len: 0 },
        1,
        3,
        12,
    );
    assert_eq!(status, 1);
    assert_eq!(
        c.seen,
        vec![(b"delete-key".to_vec(), Vec::new(), DBEntryType::Delete, 3, 12)]
    );
}

#[test]
fn create_callback_builds_the_context_from_the_native_arguments() {
    let factory = ExampleFactory::new();
    let collector = create_callback(Some(&factory), 7, 3, 8, 42).unwrap();
    assert_eq!(collector.name(), b"example-collector");
    assert!(create_callback::<ExampleFactory>(None, 7, 3, 8, 42).is_none());

    let context = collector_context(7, -1, 8, u64::MAX);
    assert_eq!(
        context,
        TablePropertiesCollectorContext {
            column_family_id: 7,
            level_at_creation: -1,
            num_levels: 8,
            last_level_inclusive_max_seqno_threshold: u64::MAX,
        }
    );
}
