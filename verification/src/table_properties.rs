//! The table properties of every SST file in a column family, read back from
//! RocksDB, and the iterators over them.
use vstd::prelude::*;

use crate::property_map::{copy_of_bytes, map_of_pairs, PropertyMap};
use crate::raw_bytes::{
    copy_raw_pairs, raw_bytes_content, raw_bytes_valid, raw_pairs_content, raw_pairs_readable,
    raw_pairs_valid, RawBytes,
};

verus! {

/// Copies the bytes of a native pointer and length.
///
/// A null pointer with a non-zero length is a broken promise of the native
/// side and is ruled out by `requires`.
pub fn copy_bytes(raw: &RawBytes) -> (v: Vec<u8>)
    requires
        raw_bytes_valid(*raw),
    ensures
        v@ == raw_bytes_content(*raw),
{
    match raw {
        RawBytes::Null { .. } => Vec::new(),
        RawBytes::Bytes(bytes) => {
            if bytes.len() == 0 {
                return Vec::new();
            }
            copy_of_bytes(bytes.as_slice())
        },
    }
}

/// What the native side reports for one SST file, read as plain values.
pub struct RawTableProperties {
    pub data_size: u64,
    pub index_size: u64,
    pub filter_size: u64,
    pub raw_key_size: u64,
    pub raw_value_size: u64,
    pub num_data_blocks: u64,
    pub num_entries: u64,
    pub num_deletions: u64,
    pub num_merge_operands: u64,
    pub num_range_deletions: u64,
    /// The pairs of the user-collected properties iterator, in order.
    pub user_collected: Vec<(RawBytes, RawBytes)>,
    /// The pairs of the readable properties iterator, in order.
    pub readable: Vec<(RawBytes, RawBytes)>,
}

/// The properties of one SST file, as values.
pub struct TablePropertiesView {
    pub data_size: u64,
    pub index_size: u64,
    pub filter_size: u64,
    pub raw_key_size: u64,
    pub raw_value_size: u64,
    pub num_data_blocks: u64,
    pub num_entries: u64,
    pub num_deletions: u64,
    pub num_merge_operands: u64,
    pub num_range_deletions: u64,
    /// Whether every pair of the user-collected properties can be read.
    pub user_collected_valid: bool,
    pub user_collected: Map<Seq<u8>, Seq<u8>>,
    /// Whether every pair of the readable properties can be read.
    pub readable_valid: bool,
    pub readable: Map<Seq<u8>, Seq<u8>>,
}

/// The properties that a native report stands for: the numbers as reported,
/// whether each property iterator's pairs can be read, and each property map
/// built from its iterator's pairs, a later pair replacing an earlier one with
/// the same key.
pub open spec fn view_of_raw(raw: RawTableProperties) -> TablePropertiesView {
    TablePropertiesView {
        data_size: raw.data_size,
        index_size: raw.index_size,
        filter_size: raw.filter_size,
        raw_key_size: raw.raw_key_size,
        raw_value_size: raw.raw_value_size,
        num_data_blocks: raw.num_data_blocks,
        num_entries: raw.num_entries,
        num_deletions: raw.num_deletions,
        num_merge_operands: raw.num_merge_operands,
        num_range_deletions: raw.num_range_deletions,
        user_collected_valid: raw_pairs_valid(raw.user_collected@),
        user_collected: map_of_pairs(raw_pairs_content(raw.user_collected@)),
        readable_valid: raw_pairs_valid(raw.readable@),
        readable: map_of_pairs(raw_pairs_content(raw.readable@)),
    }
}

/// Reading a property iterator's pairs loses no key and invents none: a key
/// is in the map exactly when some reported pair carries it, the value of a
/// key is that of the last pair carrying it, and the pairs can be read
/// exactly when every pointer of every pair is acceptable.
pub proof fn lemma_reported_pairs_make_the_map(s: Seq<(RawBytes, RawBytes)>)
    ensures
        forall|k: Seq<u8>|
            #[trigger] map_of_pairs(raw_pairs_content(s)).dom().contains(k) <==> exists|i: int|
                #![trigger s[i]]
                0 <= i < s.len() && raw_bytes_content(s[i].0) == k,
        forall|i: int|
            #![trigger s[i]]
            0 <= i < s.len() && (forall|j: int|
                #![trigger s[j]]
                i < j < s.len() ==> raw_bytes_content(s[j].0) != raw_bytes_content(s[i].0))
                ==> map_of_pairs(raw_pairs_content(s))[raw_bytes_content(s[i].0)]
                == raw_bytes_content(s[i].1),
        raw_pairs_valid(s) <==> forall|i: int|
            #![trigger s[i]]
            0 <= i < s.len() ==> raw_bytes_valid(s[i].0) && raw_bytes_valid(s[i].1),
{
    let c = raw_pairs_content(s);
    assert forall|k: Seq<u8>| #[trigger]
        map_of_pairs(c).dom().contains(k) <==> exists|i: int|
            #![trigger s[i]]
            0 <= i < s.len() && raw_bytes_content(s[i].0) == k by {
        crate::property_map::lemma_map_of_pairs_dom(c, k);
        if map_of_pairs(c).dom().contains(k) {
            let i = choose|i: int| 0 <= i < c.len() && c[i].0 == k;
            assert(c[i] == (raw_bytes_content(s[i].0), raw_bytes_content(s[i].1)));
        }
        if exists|i: int| #![trigger s[i]] 0 <= i < s.len() && raw_bytes_content(s[i].0) == k {
            let i = choose|i: int| #![trigger s[i]] 0 <= i < s.len() && raw_bytes_content(s[i].0) == k;
            assert(c[i] == (raw_bytes_content(s[i].0), raw_bytes_content(s[i].1)));
        }
    }
    assert forall|i: int|
        #![trigger s[i]]
        0 <= i < s.len() && (forall|j: int|
            #![trigger s[j]]
            i < j < s.len() ==> raw_bytes_content(s[j].0) != raw_bytes_content(s[i].0))
            implies map_of_pairs(c)[raw_bytes_content(s[i].0)] == raw_bytes_content(s[i].1) by {
        assert forall|j: int| i < j < c.len() implies #[trigger] c[j].0 != c[i].0 by {
            assert(c[j] == (raw_bytes_content(s[j].0), raw_bytes_content(s[j].1)));
            assert(c[i] == (raw_bytes_content(s[i].0), raw_bytes_content(s[i].1)));
        }
        crate::property_map::lemma_map_of_pairs_value(c, i);
    }
}

/// The properties a native report stands for carry every reported number as
/// reported, and maps that hold every reported key with the value of its last
/// pair.
pub proof fn lemma_reported_properties(raw: RawTableProperties)
    ensures
        view_of_raw(raw).data_size == raw.data_size,
        view_of_raw(raw).index_size == raw.index_size,
        view_of_raw(raw).filter_size == raw.filter_size,
        view_of_raw(raw).raw_key_size == raw.raw_key_size,
        view_of_raw(raw).raw_value_size == raw.raw_value_size,
        view_of_raw(raw).num_data_blocks == raw.num_data_blocks,
        view_of_raw(raw).num_entries == raw.num_entries,
        view_of_raw(raw).num_deletions == raw.num_deletions,
        view_of_raw(raw).num_merge_operands == raw.num_merge_operands,
        view_of_raw(raw).num_range_deletions == raw.num_range_deletions,
        forall|k: Seq<u8>|
            #[trigger] view_of_raw(raw).user_collected.dom().contains(k) <==> exists|i: int|
                #![trigger raw.user_collected@[i]]
                0 <= i < raw.user_collected@.len() && raw_bytes_content(raw.user_collected@[i].0) == k,
        forall|i: int|
            #![trigger raw.user_collected@[i]]
            0 <= i < raw.user_collected@.len() && (forall|j: int|
                #![trigger raw.user_collected@[j]]
                i < j < raw.user_collected@.len() ==> raw_bytes_content(raw.user_collected@[j].0)
                    != raw_bytes_content(raw.user_collected@[i].0)) ==> view_of_raw(
                raw,
            ).user_collected[raw_bytes_content(raw.user_collected@[i].0)] == raw_bytes_content(
                raw.user_collected@[i].1,
            ),
        view_of_raw(raw).user_collected_valid <==> forall|i: int|
            #![trigger raw.user_collected@[i]]
            0 <= i < raw.user_collected@.len() ==> raw_bytes_valid(raw.user_collected@[i].0)
                && raw_bytes_valid(raw.user_collected@[i].1),
        forall|k: Seq<u8>|
            #[trigger] view_of_raw(raw).readable.dom().contains(k) <==> exists|i: int|
                #![trigger raw.readable@[i]]
                0 <= i < raw.readable@.len() && raw_bytes_content(raw.readable@[i].0) == k,
        forall|i: int|
            #![trigger raw.readable@[i]]
            0 <= i < raw.readable@.len() && (forall|j: int|
                #![trigger raw.readable@[j]]
                i < j < raw.readable@.len() ==> raw_bytes_content(raw.readable@[j].0)
                    != raw_bytes_content(raw.readable@[i].0)) ==> view_of_raw(
                raw,
            ).readable[raw_bytes_content(raw.readable@[i].0)] == raw_bytes_content(
                raw.readable@[i].1,
            ),
        view_of_raw(raw).readable_valid <==> forall|i: int|
            #![trigger raw.readable@[i]]
            0 <= i < raw.readable@.len() ==> raw_bytes_valid(raw.readable@[i].0)
                && raw_bytes_valid(raw.readable@[i].1),
{
    lemma_reported_pairs_make_the_map(raw.user_collected@);
    lemma_reported_pairs_make_the_map(raw.readable@);
}

/// Builds a property map from the pairs a native properties iterator yields,
/// in order; a later pair replaces an earlier one with the same key.
pub fn collect_properties(pairs: &Vec<(RawBytes, RawBytes)>) -> (m: PropertyMap)
    requires
        raw_pairs_valid(pairs@),
    ensures
        m@ == map_of_pairs(raw_pairs_content(pairs@)),
{
    let ghost all = raw_pairs_content(pairs@);
    let mut m = PropertyMap::new();
    let mut i: usize = 0;
    while i < pairs.len()
        invariant
            i <= pairs@.len(),
            raw_pairs_valid(pairs@),
            all == raw_pairs_content(pairs@),
            m@ == map_of_pairs(all.take(i as int)),
        decreases pairs@.len() - i,
    {
        assert(raw_bytes_valid(pairs@[i as int].0));
        let key = copy_bytes(&pairs[i].0);
        let value = copy_bytes(&pairs[i].1);
        proof {
            assert(all[i as int] == (key@, value@));
            assert(all.take(i + 1).drop_last() =~= all.take(i as int));
        }
        m.insert(key, value);
        i = i + 1;
    }
    assert(all.take(i as int) =~= all);
    m
}

/// Properties collected by RocksDB while creating one SST file.
pub struct TableProperties {
    data_size: u64,
    index_size: u64,
    filter_size: u64,
    raw_key_size: u64,
    raw_value_size: u64,
    num_data_blocks: u64,
    num_entries: u64,
    num_deletions: u64,
    num_merge_operands: u64,
    num_range_deletions: u64,
    user_collected: Vec<(RawBytes, RawBytes)>,
    readable: Vec<(RawBytes, RawBytes)>,
}

impl View for TableProperties {
    type V = TablePropertiesView;

    closed spec fn view(&self) -> TablePropertiesView {
        TablePropertiesView {
            data_size: self.data_size,
            index_size: self.index_size,
            filter_size: self.filter_size,
            raw_key_size: self.raw_key_size,
            raw_value_size: self.raw_value_size,
            num_data_blocks: self.num_data_blocks,
            num_entries: self.num_entries,
            num_deletions: self.num_deletions,
            num_merge_operands: self.num_merge_operands,
            num_range_deletions: self.num_range_deletions,
            user_collected_valid: raw_pairs_valid(self.user_collected@),
            user_collected: map_of_pairs(raw_pairs_content(self.user_collected@)),
            readable_valid: raw_pairs_valid(self.readable@),
            readable: map_of_pairs(raw_pairs_content(self.readable@)),
        }
    }
}

impl TableProperties {
    /// The properties of one SST file, from what the native side reported.
    pub fn from_raw(raw: &RawTableProperties) -> (p: TableProperties)
        ensures
            p@ == view_of_raw(*raw),
            p@.data_size == raw.data_size,
            p@.index_size == raw.index_size,
            p@.filter_size == raw.filter_size,
            p@.raw_key_size == raw.raw_key_size,
            p@.raw_value_size == raw.raw_value_size,
            p@.num_data_blocks == raw.num_data_blocks,
            p@.num_entries == raw.num_entries,
            p@.num_deletions == raw.num_deletions,
            p@.num_merge_operands == raw.num_merge_operands,
            p@.num_range_deletions == raw.num_range_deletions,
            forall|k: Seq<u8>|
                #[trigger] p@.user_collected.dom().contains(k) <==> exists|i: int|
                    #![trigger raw.user_collected@[i]]
                    0 <= i < raw.user_collected@.len() && raw_bytes_content(raw.user_collected@[i].0)
                        == k,
            forall|i: int|
                #![trigger raw.user_collected@[i]]
                0 <= i < raw.user_collected@.len() && (forall|j: int|
                    #![trigger raw.user_collected@[j]]
                    i < j < raw.user_collected@.len() ==> raw_bytes_content(
                        raw.user_collected@[j].0,
                    ) != raw_bytes_content(raw.user_collected@[i].0))
                    ==> p@.user_collected[raw_bytes_content(raw.user_collected@[i].0)]
                    == raw_bytes_content(raw.user_collected@[i].1),
            p@.user_collected_valid <==> forall|i: int|
                #![trigger raw.user_collected@[i]]
                0 <= i < raw.user_collected@.len() ==> raw_bytes_valid(raw.user_collected@[i].0)
                    && raw_bytes_valid(raw.user_collected@[i].1),
            forall|k: Seq<u8>|
                #[trigger] p@.readable.dom().contains(k) <==> exists|i: int|
                    #![trigger raw.readable@[i]]
                    0 <= i < raw.readable@.len() && raw_bytes_content(raw.readable@[i].0) == k,
            forall|i: int|
                #![trigger raw.readable@[i]]
                0 <= i < raw.readable@.len() && (forall|j: int|
                    #![trigger raw.readable@[j]]
                    i < j < raw.readable@.len() ==> raw_bytes_content(raw.readable@[j].0)
                        != raw_bytes_content(raw.readable@[i].0)) ==> p@.readable[raw_bytes_content(
                    raw.readable@[i].0,
                )] == raw_bytes_content(raw.readable@[i].1),
            p@.readable_valid <==> forall|i: int|
                #![trigger raw.readable@[i]]
                0 <= i < raw.readable@.len() ==> raw_bytes_valid(raw.readable@[i].0)
                    && raw_bytes_valid(raw.readable@[i].1),
    {
        proof {
            lemma_reported_properties(*raw);
        }
        TableProperties {
            data_size: raw.data_size,
            index_size: raw.index_size,
            filter_size: raw.filter_size,
            raw_key_size: raw.raw_key_size,
            raw_value_size: raw.raw_value_size,
            num_data_blocks: raw.num_data_blocks,
            num_entries: raw.num_entries,
            num_deletions: raw.num_deletions,
            num_merge_operands: raw.num_merge_operands,
            num_range_deletions: raw.num_range_deletions,
            user_collected: copy_raw_pairs(&raw.user_collected),
            readable: copy_raw_pairs(&raw.readable),
        }
    }

    pub fn data_size(&self) -> (v: u64)
        ensures
            v == self@.data_size,
    {
        self.data_size
    }

    pub fn index_size(&self) -> (v: u64)
        ensures
            v == self@.index_size,
    {
        self.index_size
    }

    pub fn filter_size(&self) -> (v: u64)
        ensures
            v == self@.filter_size,
    {
        self.filter_size
    }

    pub fn raw_key_size(&self) -> (v: u64)
        ensures
            v == self@.raw_key_size,
    {
        self.raw_key_size
    }

    pub fn raw_value_size(&self) -> (v: u64)
        ensures
            v == self@.raw_value_size,
    {
        self.raw_value_size
    }

    pub fn num_data_blocks(&self) -> (v: u64)
        ensures
            v == self@.num_data_blocks,
    {
        self.num_data_blocks
    }

    pub fn num_entries(&self) -> (v: u64)
        ensures
            v == self@.num_entries,
    {
        self.num_entries
    }

    pub fn num_deletions(&self) -> (v: u64)
        ensures
            v == self@.num_deletions,
    {
        self.num_deletions
    }

    pub fn num_merge_operands(&self) -> (v: u64)
        ensures
            v == self@.num_merge_operands,
    {
        self.num_merge_operands
    }

    pub fn num_range_deletions(&self) -> (v: u64)
        ensures
            v == self@.num_range_deletions,
    {
        self.num_range_deletions
    }

    /// Whether the user-collected properties can be read: no pair holds a
    /// null pointer with a non-zero length.
    pub fn user_collected_properties_are_readable(&self) -> (b: bool)
        ensures
            b == self@.user_collected_valid,
    {
        raw_pairs_readable(&self.user_collected)
    }

    /// Whether the readable properties can be read: no pair holds a null
    /// pointer with a non-zero length.
    pub fn readable_properties_are_readable(&self) -> (b: bool)
        ensures
            b == self@.readable_valid,
    {
        raw_pairs_readable(&self.readable)
    }

    /// The binary properties that the collectors stored in the SST file.
    pub fn user_collected_properties(&self) -> (m: PropertyMap)
        requires
            self@.user_collected_valid,
        ensures
            m@ == self@.user_collected,
    {
        collect_properties(&self.user_collected)
    }

    /// The human-readable properties that the collectors reported.
    pub fn readable_properties(&self) -> (m: PropertyMap)
        requires
            self@.readable_valid,
        ensures
            m@ == self@.readable,
    {
        collect_properties(&self.readable)
    }

    /// An independent copy of the properties.
    pub fn copy(&self) -> (p: TableProperties)
        ensures
            p@ == self@,
    {
        TableProperties {
            data_size: self.data_size,
            index_size: self.index_size,
            filter_size: self.filter_size,
            raw_key_size: self.raw_key_size,
            raw_value_size: self.raw_value_size,
            num_data_blocks: self.num_data_blocks,
            num_entries: self.num_entries,
            num_deletions: self.num_deletions,
            num_merge_operands: self.num_merge_operands,
            num_range_deletions: self.num_range_deletions,
            user_collected: copy_raw_pairs(&self.user_collected),
            readable: copy_raw_pairs(&self.readable),
        }
    }
}

/// One answer of the native table-properties iterator: whether there was a
/// next file, its name, and its properties.
pub struct TablePropertiesIterStep {
    pub has_next: u8,
    pub file_name: RawBytes,
    pub properties: Option<RawTableProperties>,
}

/// An answer that announces a file carries an acceptable name and non-null
/// properties.
pub open spec fn iter_step_valid(step: TablePropertiesIterStep) -> bool {
    step.has_next != 0 ==> {
        &&& raw_bytes_valid(step.file_name)
        &&& step.properties is Some
    }
}

/// The file and properties an answer announces.
pub open spec fn iter_step_item(step: TablePropertiesIterStep) -> (Seq<u8>, TablePropertiesView) {
    (raw_bytes_content(step.file_name), view_of_raw(step.properties.unwrap()))
}

/// The answers up to the first one that reports no next file.
pub open spec fn announced_steps(steps: Seq<TablePropertiesIterStep>) -> Seq<TablePropertiesIterStep>
    decreases steps.len(),
{
    if steps.len() == 0 || steps[0].has_next == 0 {
        Seq::empty()
    } else {
        seq![steps[0]] + announced_steps(steps.drop_first())
    }
}

/// Every answer up to the first one that reports no next file is valid.
pub open spec fn iter_steps_valid(steps: Seq<TablePropertiesIterStep>) -> bool {
    forall|i: int|
        0 <= i < announced_steps(steps).len() ==> iter_step_valid(#[trigger] announced_steps(steps)[i])
}

/// The files and properties the answers announce, in order.
pub open spec fn tables_of_steps(steps: Seq<TablePropertiesIterStep>) -> Seq<(Seq<u8>, TablePropertiesView)> {
    announced_steps(steps).map_values(|s: TablePropertiesIterStep| iter_step_item(s))
}

/// The collection built from the iterator's answers has one entry per
/// answer before the first one that reports no next file, in order: entry
/// `i` is the name and properties of answer `i`, every answer before the end
/// announces a file, and the entries stop only at the end of the answers or
/// at an answer that reports no next file.
pub proof fn lemma_every_announced_file_is_collected(steps: Seq<TablePropertiesIterStep>)
    ensures
        tables_of_steps(steps).len() <= steps.len(),
        forall|i: int|
            #![trigger tables_of_steps(steps)[i]]
            0 <= i < tables_of_steps(steps).len() ==> tables_of_steps(steps)[i] == (
                raw_bytes_content(steps[i].file_name),
                view_of_raw(steps[i].properties.unwrap()),
            ),
        forall|i: int|
            #![trigger steps[i]]
            0 <= i < tables_of_steps(steps).len() ==> steps[i].has_next != 0,
        tables_of_steps(steps).len() == steps.len() || steps[tables_of_steps(steps).len() as int].has_next
            == 0,
    decreases steps.len(),
{
    if steps.len() > 0 && steps[0].has_next != 0 {
        let rest = steps.drop_first();
        lemma_every_announced_file_is_collected(rest);
        let t = tables_of_steps(steps);
        let t2 = tables_of_steps(rest);
        assert(announced_steps(steps) =~= seq![steps[0]] + announced_steps(rest));
        assert(t =~= seq![iter_step_item(steps[0])] + t2);
        assert forall|i: int|
            #![trigger tables_of_steps(steps)[i]]
            0 <= i < tables_of_steps(steps).len() implies tables_of_steps(steps)[i] == (
                raw_bytes_content(steps[i].file_name),
                view_of_raw(steps[i].properties.unwrap()),
            ) by {
            if i > 0 {
                assert(t[i] == t2[i - 1]);
                assert(rest[i - 1] == steps[i]);
            } else {
                assert(t[0] == iter_step_item(steps[0]));
            }
        }
        assert forall|i: int|
            #![trigger steps[i]]
            0 <= i < tables_of_steps(steps).len() implies steps[i].has_next != 0 by {
            if i > 0 {
                assert(rest[i - 1] == steps[i]);
            }
        }
        if t2.len() < rest.len() {
            assert(rest[t2.len() as int] == steps[t.len() as int]);
        }
    } else {
        assert(announced_steps(steps) =~= Seq::<TablePropertiesIterStep>::empty());
        assert(tables_of_steps(steps) =~= Seq::<(Seq<u8>, TablePropertiesView)>::empty());
    }
}

/// The file name and properties of the next SST file, or `None` when the
/// native iterator reports that there is none.
pub fn next_table_properties(step: &TablePropertiesIterStep) -> (item: Option<(Vec<u8>, TableProperties)>)
    requires
        iter_step_valid(*step),
    ensures
        match item {
            Some(it) => step.has_next != 0 && (it.0@, it.1@) == iter_step_item(*step) && it.0@
                == raw_bytes_content(step.file_name) && it.1@ == view_of_raw(
                step.properties.unwrap(),
            ),
            None => step.has_next == 0,
        },
{
    if step.has_next == 0 {
        return None;
    }
    let file_name = copy_bytes(&step.file_name);
    match &step.properties {
        Some(raw) => Some((file_name, TableProperties::from_raw(raw))),
        None => None,
    }
}

/// Why a collection could not be read.
#[derive(Clone, Copy, Debug, PartialEq, Eq, Structural)]
pub enum TablePropertiesError {
    /// RocksDB returned a null table properties collection.
    NullCollection,
}

impl TablePropertiesError {
    /// The error's message.
    pub fn message(&self) -> (m: &'static str)
        ensures
            m@ == "RocksDB returned a null table properties collection"@,
    {
        match self {
            TablePropertiesError::NullCollection => "RocksDB returned a null table properties collection",
        }
    }
}

/// The table properties for every SST file in a column family.
pub struct TablePropertiesCollection {
    tables: Vec<(Vec<u8>, TableProperties)>,
}

/// The file name and properties of one table, as values.
pub open spec fn table_item_view(item: (Vec<u8>, TableProperties)) -> (Seq<u8>, TablePropertiesView) {
    (item.0@, item.1@)
}

/// The file names and properties of a list of tables, as values.
pub open spec fn tables_view(s: Seq<(Vec<u8>, TableProperties)>) -> Seq<(Seq<u8>, TablePropertiesView)> {
    s.map_values(|t: (Vec<u8>, TableProperties)| table_item_view(t))
}

impl View for TablePropertiesCollection {
    type V = Seq<(Seq<u8>, TablePropertiesView)>;

    closed spec fn view(&self) -> Seq<(Seq<u8>, TablePropertiesView)> {
        tables_view(self.tables@)
    }
}

impl TablePropertiesCollection {
    /// The collection read through a native collection handle: an error when
    /// the handle is null, else every file that its iterator announces.
    pub fn from_raw(steps: Option<Vec<TablePropertiesIterStep>>) -> (r: Result<
        TablePropertiesCollection,
        TablePropertiesError,
    >)
        requires
            steps matches Some(s) ==> iter_steps_valid(s@),
        ensures
            match r {
                Ok(c) => steps matches Some(s) && c@ == tables_of_steps(s@),
                Err(e) => steps is None && e == TablePropertiesError::NullCollection,
            },
    {
        match steps {
            Some(s) => Ok(TablePropertiesCollection::from_iter_steps(&s)),
            None => Err(TablePropertiesError::NullCollection),
        }
    }

    /// The collection of every file that the iterator's answers announce, up
    /// to the first answer that reports no next file.
    pub fn from_iter_steps(steps: &Vec<TablePropertiesIterStep>) -> (c: TablePropertiesCollection)
        requires
            iter_steps_valid(steps@),
        ensures
            c@ == tables_of_steps(steps@),
            c@.len() <= steps@.len(),
            forall|i: int|
                #![trigger c@[i]]
                0 <= i < c@.len() ==> c@[i] == (
                    raw_bytes_content(steps@[i].file_name),
                    view_of_raw(steps@[i].properties.unwrap()),
                ),
            forall|i: int| #![trigger steps@[i]] 0 <= i < c@.len() ==> steps@[i].has_next != 0,
            c@.len() == steps@.len() || steps@[c@.len() as int].has_next == 0,
    {
        let mut tables: Vec<(Vec<u8>, TableProperties)> = Vec::new();
        let mut i: usize = 0;
        let ghost all = steps@;
        assert(all.skip(0) =~= all);
        while i < steps.len() && steps[i].has_next != 0
            invariant
                i <= all.len(),
                all == steps@,
                tables_view(tables@) + tables_of_steps(all.skip(i as int)) =~= tables_of_steps(all),
                iter_steps_valid(all.skip(i as int)),
            decreases all.len() - i,
        {
            let ghost rest = all.skip(i as int);
            let ghost next = all.skip(i + 1);
            proof {
                assert(rest[0] == all[i as int]);
                assert(rest.drop_first() =~= next);
                assert(announced_steps(rest) =~= seq![rest[0]] + announced_steps(next));
                assert(announced_steps(rest)[0] == rest[0]);
                assert(tables_of_steps(rest) =~= seq![iter_step_item(rest[0])] + tables_of_steps(next));
                assert forall|j: int|
                    0 <= j < announced_steps(next).len() implies iter_step_valid(
                    #[trigger] announced_steps(next)[j],
                ) by {
                    assert(announced_steps(next)[j] == announced_steps(rest)[j + 1]);
                }
            }
            match next_table_properties(&steps[i]) {
                Some(item) => {
                    let ghost before = tables@;
                    tables.push(item);
                    proof {
                        assert(tables_view(tables@) =~= tables_view(before).push(
                            iter_step_item(rest[0]),
                        ));
                    }
                },
                None => {},
            }
            i = i + 1;
        }
        proof {
            let rest = all.skip(i as int);
            if i < all.len() {
                assert(rest[0] == all[i as int]);
            }
            assert(announced_steps(rest) =~= Seq::<TablePropertiesIterStep>::empty());
            assert(tables_of_steps(rest) =~= Seq::<(Seq<u8>, TablePropertiesView)>::empty());
            lemma_every_announced_file_is_collected(all);
        }
        let c = TablePropertiesCollection { tables };
        assert(c@ == tables_of_steps(all));
        assert forall|i: int|
            #![trigger c@[i]]
            0 <= i < c@.len() implies c@[i] == (
                raw_bytes_content(steps@[i].file_name),
                view_of_raw(steps@[i].properties.unwrap()),
            ) by {
            assert(c@[i] == tables_of_steps(all)[i]);
        }
        c
    }

    /// The number of SST files in the collection.
    pub fn len(&self) -> (n: usize)
        ensures
            n == self@.len(),
    {
        self.tables.len()
    }

    /// Whether the column family has no SST file.
    pub fn is_empty(&self) -> (b: bool)
        ensures
            b <==> self@.len() == 0,
    {
        self.len() == 0
    }

    /// Iterates over the file names and properties, in order, leaving the
    /// collection as it is.
    pub fn iter(&self) -> (it: TablePropertiesCollectionIter<'_>)
        ensures
            it.remaining() == self@,
    {
        let it = TablePropertiesCollectionIter { collection: self, position: 0 };
        assert(self@.skip(0) =~= self@);
        it
    }

    /// Consumes the collection into an iterator over its file names and
    /// properties, in order.
    pub fn into_iter(self) -> (it: TablePropertiesCollectionIntoIter)
        ensures
            it.remaining() == self@,
    {
        let it = TablePropertiesCollectionIntoIter { collection: self, position: 0 };
        assert(it.collection@.skip(0) =~= it.collection@);
        it
    }

    /// An independent copy of the entry at `i`.
    fn entry(&self, i: usize) -> (item: (Vec<u8>, TableProperties))
        requires
            i < self@.len(),
        ensures
            table_item_view(item) == self@[i as int],
    {
        let name = copy_of_bytes(self.tables[i].0.as_slice());
        let properties = self.tables[i].1.copy();
        (name, properties)
    }
}

/// A borrowed iterator over a [`TablePropertiesCollection`].
pub struct TablePropertiesCollectionIter<'a> {
    collection: &'a TablePropertiesCollection,
    position: usize,
}

impl<'a> TablePropertiesCollectionIter<'a> {
    #[verifier::type_invariant]
    spec fn position_in_range(self) -> bool {
        self.position <= self.collection@.len()
    }

    /// The entries not yet returned, in order.
    pub closed spec fn remaining(&self) -> Seq<(Seq<u8>, TablePropertiesView)> {
        self.collection@.skip(self.position as int)
    }

    /// The next file name and properties, or `None` once all were returned.
    pub fn next(&mut self) -> (item: Option<(Vec<u8>, TableProperties)>)
        ensures
            match item {
                Some(it) => old(self).remaining().len() > 0 && table_item_view(it)
                    == old(self).remaining()[0] && final(self).remaining() == old(
                    self,
                ).remaining().drop_first(),
                None => old(self).remaining().len() == 0 && final(self).remaining() == old(
                    self,
                ).remaining(),
            },
    {
        proof {
            use_type_invariant(&*self);
        }
        if self.position >= self.collection.len() {
            return None;
        }
        let item = self.collection.entry(self.position);
        let ghost before = self.remaining();
        self.position = self.position + 1;
        proof {
            assert(self.remaining() =~= before.drop_first());
        }
        Some(item)
    }
}

/// An owning iterator over a [`TablePropertiesCollection`].
pub struct TablePropertiesCollectionIntoIter {
    collection: TablePropertiesCollection,
    position: usize,
}

impl TablePropertiesCollectionIntoIter {
    #[verifier::type_invariant]
    spec fn position_in_range(self) -> bool {
        self.position <= self.collection@.len()
    }

    /// The entries not yet returned, in order.
    pub closed spec fn remaining(&self) -> Seq<(Seq<u8>, TablePropertiesView)> {
        self.collection@.skip(self.position as int)
    }

    /// The next file name and properties, or `None` once all were returned.
    pub fn next(&mut self) -> (item: Option<(Vec<u8>, TableProperties)>)
        ensures
            match item {
                Some(it) => old(self).remaining().len() > 0 && table_item_view(it)
                    == old(self).remaining()[0] && final(self).remaining() == old(
                    self,
                ).remaining().drop_first(),
                None => old(self).remaining().len() == 0 && final(self).remaining() == old(
                    self,
                ).remaining(),
            },
    {
        proof {
            use_type_invariant(&*self);
        }
        if self.position >= self.collection.len() {
            return None;
        }
        let item = self.collection.entry(self.position);
        let ghost before = self.remaining();
        self.position = self.position + 1;
        proof {
            assert(self.remaining() =~= before.drop_first());
        }
        Some(item)
    }
}

} // verus!
