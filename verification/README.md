# rust_rocksdb (verified core)

The table-properties and event-listener parts of a RocksDB binding, with the
logic that sits between RocksDB's native callbacks and user code verified by
Verus.

- `src/` is the verified library. Native handles are read into plain values
  (`raw_bytes::RawBytes`, `table_properties::RawTableProperties`,
  `table_properties::TablePropertiesIterStep`, `event_listener::FlushJobInfo`),
  and the logic applied to them is verified. The contracts of the callbacks
  that call user code state which user method is called and with which
  arguments; what user code does is its own affair:
  - `property_map`: byte-keyed maps (`PropertyMap`) with a map view;
  - `table_properties`: property collection from native iterators, the
    collection of all SST files and its iterators;
  - `table_properties_collector`: entry types, the collector trait, and the
    decisions of the `add`, `finish` and readable-properties callbacks,
    including the forwarding of properties to a native sink;
  - `table_properties_collector_factory`: the factory trait and the create
    callback;
  - `event_listener`: flush-job information and the listener trait.
- `app/` declares the native C functions, holds the `extern "C"` callbacks that
  RocksDB calls (panics are caught there), reads native handles into the
  library's values, and holds the closure-based collector.
- `tests/` exercises the library on concrete values.
