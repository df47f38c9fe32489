//! Factories that create one table-properties collector per SST build.
use vstd::prelude::*;

use crate::table_properties_collector::TablePropertiesCollector;

verus! {

/// Context supplied by RocksDB when it starts building an SST file.
#[derive(Clone, Copy, Debug, PartialEq, Eq, Structural)]
pub struct TablePropertiesCollectorContext {
    pub column_family_id: u32,
    pub level_at_creation: i32,
    pub num_levels: i32,
    pub last_level_inclusive_max_seqno_threshold: u64,
}

/// Creates an independent table-properties collector for each SST build.
///
/// RocksDB may call a factory concurrently from background threads. Factory
/// implementations must therefore support shared concurrent access.
pub trait TablePropertiesCollectorFactory: Send + Sync + 'static {
    type Collector: TablePropertiesCollector;

    /// Creates a collector for one table build.
    fn create(&self, context: TablePropertiesCollectorContext) -> Self::Collector;

    /// Returns a stable name used by RocksDB for diagnostics, without a
    /// terminating NUL byte.
    fn name(&self) -> &[u8];
}

/// The context of one table build, from the values RocksDB passes to the
/// native create callback.
pub fn collector_context(
    column_family_id: u32,
    level_at_creation: i32,
    num_levels: i32,
    last_level_inclusive_max_seqno_threshold: u64,
) -> (context: TablePropertiesCollectorContext)
    ensures
        context.column_family_id == column_family_id,
        context.level_at_creation == level_at_creation,
        context.num_levels == num_levels,
        context.last_level_inclusive_max_seqno_threshold
            == last_level_inclusive_max_seqno_threshold,
{
    TablePropertiesCollectorContext {
        column_family_id,
        level_at_creation,
        num_levels,
        last_level_inclusive_max_seqno_threshold,
    }
}

/// The native create callback: the collector the factory's `create` returns
/// for the context made of the native arguments, or `None` when there is no
/// factory.
pub fn create_callback<F: TablePropertiesCollectorFactory>(
    factory: Option<&F>,
    column_family_id: u32,
    level_at_creation: i32,
    num_levels: i32,
    last_level_inclusive_max_seqno_threshold: u64,
) -> (collector: Option<F::Collector>)
    ensures
        collector is Some <==> factory is Some,
        collector matches Some(c) ==> factory matches Some(f) && call_ensures(
            F::create,
            (
                f,
                (TablePropertiesCollectorContext {
                    column_family_id,
                    level_at_creation,
                    num_levels,
                    last_level_inclusive_max_seqno_threshold,
                }),
            ),
            c,
        ),
{
    match factory {
        Some(f) => {
            let context = collector_context(
                column_family_id,
                level_at_creation,
                num_levels,
                last_level_inclusive_max_seqno_threshold,
            );
            Some(f.create(context))
        },
        None => None,
    }
}

} // verus!
