//! Table-properties collection, collector callbacks and flush-event data of
//! a RocksDB binding, kept as plain values so that their logic is verified.

pub mod event_listener;
pub mod property_map;
pub mod raw_bytes;
pub mod table_properties;
pub mod table_properties_collector;
pub mod table_properties_collector_factory;
