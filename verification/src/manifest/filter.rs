//! Filtering of manifest entries: partition expressions, inclusive metrics
//! evaluation on column statistics, and sets of partitions.
use vstd::prelude::*;
use std::collections::HashMap;
use crate::expr::accessor::{Accessor, field_at};
use crate::expr::datum::{Datum, DatumView, compare_code, datum_order_code, bytes_eq};
use crate::expr::evaluator::{BoundExpressionTree, TreeView, tree_holds};
use crate::types::{PartitionData, PartitionValue, PartitionValueView, partition_views};
use crate::text::str_eq;

verus! {

broadcast use vstd::std_specs::hash::group_hash_axioms;

/// The value a partition value stands for in expressions.
pub open spec fn value_datum(v: PartitionValueView) -> DatumView {
    match v {
        PartitionValueView::Null => DatumView::Null,
        PartitionValueView::Boolean(b) => DatumView::Boolean(b),
        PartitionValueView::Int(i) => DatumView::Int(i),
        PartitionValueView::Long(l) => DatumView::Long(l),
        PartitionValueView::Float(f) => DatumView::Float(f),
        PartitionValueView::Double(d) => DatumView::Double(d),
        PartitionValueView::Date(d) => DatumView::Date(d),
        PartitionValueView::Time(t) => DatumView::Time(t),
        PartitionValueView::Timestamp(t) => DatumView::Timestamp(t),
        PartitionValueView::String(s) => DatumView::String(s),
        PartitionValueView::Uuid(u) => DatumView::Uuid(u),
        PartitionValueView::Binary(b) => DatumView::Binary(b),
    }
}

/// A partition tuple as a row of values.
pub open spec fn partition_row(p: Seq<PartitionValueView>) -> Seq<DatumView> {
    Seq::new(p.len(), |i: int| value_datum(p[i]))
}

/// The value a partition value stands for.
fn partition_value_to_datum(value: &PartitionValue) -> (r: Datum)
    ensures
        r@ == value_datum(value@),
{
    match value {
        PartitionValue::Null => Datum::Null,
        PartitionValue::Boolean(b) => Datum::Boolean(*b),
        PartitionValue::Int(i) => Datum::Int(*i),
        PartitionValue::Long(l) => Datum::Long(*l),
        PartitionValue::Float(f) => Datum::Float(*f),
        PartitionValue::Double(d) => Datum::Double(*d),
        PartitionValue::Date(d) => Datum::Date(*d),
        PartitionValue::Time(t) => Datum::Time(*t),
        PartitionValue::Timestamp(t) => Datum::Timestamp(*t),
        PartitionValue::String(s) => Datum::String(crate::text::copy_string(s)),
        PartitionValue::Uuid(u) => Datum::Uuid(*u),
        PartitionValue::Binary(b) => Datum::Binary(crate::types::copy_bytes(b)),
    }
}

/// A partition tuple read as a row.
struct PartitionRow<'a> {
    partition: &'a PartitionData,
}

impl<'a> Accessor for PartitionRow<'a> {
    closed spec fn row(&self) -> Seq<DatumView> {
        partition_row(self.partition@)
    }

    fn get(&self, pos: usize) -> (r: Datum) {
        match self.partition.get(pos) {
            Some(v) => partition_value_to_datum(v),
            None => Datum::Null,
        }
    }

    fn size(&self) -> (r: usize) {
        self.partition.len()
    }
}

/// Evaluates a bound expression against partition tuples.
#[derive(Debug)]
pub struct PartitionEvaluator {
    expr: BoundExpressionTree,
}

impl View for PartitionEvaluator {
    type V = TreeView;

    closed spec fn view(&self) -> TreeView {
        self.expr@
    }
}

impl PartitionEvaluator {
    /// An evaluator of the given expression.
    pub fn new(expr: BoundExpressionTree) -> (r: PartitionEvaluator)
        ensures
            r@ == expr@,
    {
        PartitionEvaluator { expr }
    }

    /// An evaluator that accepts every partition.
    pub fn always_true() -> (r: PartitionEvaluator)
        ensures
            r@ == TreeView::True,
    {
        PartitionEvaluator { expr: BoundExpressionTree::always_true() }
    }

    /// Whether the expression holds of the partition tuple.
    pub fn eval(&self, partition: &PartitionData) -> (r: bool)
        ensures
            r == tree_holds(self@, partition_row(partition@)),
    {
        let row = PartitionRow { partition };
        assert(row.row() == partition_row(partition@));
        self.expr.eval(&row)
    }
}

/// What a metrics filter asks of a column.
#[derive(Debug, Clone, Copy, PartialEq, Eq, Structural)]
pub enum MetricsOperation {
    /// Field must not be all nulls
    NotNull,
    /// Field must be all nulls
    IsNull,
    /// Field must have value < X
    LessThan,
    /// Field must have value <= X
    LessThanOrEqual,
    /// Field must have value > X
    GreaterThan,
    /// Field must have value >= X
    GreaterThanOrEqual,
    /// Field must have value == X
    Equal,
    /// Field must have value != X
    NotEqual,
    /// Field must start with a prefix
    StartsWith,
    /// Field value must be in a set
    In,
    /// Field value must not be in a set
    NotIn,
}

/// One filter on the statistics of a column.
#[derive(Debug)]
pub struct MetricsFilter {
    /// Field ID
    pub field_id: i32,
    /// Filter operation
    pub operation: MetricsOperation,
    /// Filter value (for comparison operations)
    pub value: Option<Datum>,
}

/// What a metrics filter holds.
pub struct MetricsFilterView {
    pub field_id: i32,
    pub operation: MetricsOperation,
    pub value: Option<DatumView>,
}

impl View for MetricsFilter {
    type V = MetricsFilterView;

    open spec fn view(&self) -> MetricsFilterView {
        MetricsFilterView {
            field_id: self.field_id,
            operation: self.operation,
            value: match self.value {
                Some(d) => Some(d@),
                None => None,
            },
        }
    }
}

/// The statistics of a file that filters are tested against.
#[derive(Debug)]
pub struct FileMetrics {
    /// Total record count
    pub record_count: i64,
    /// Null value counts by field ID
    pub null_value_counts: HashMap<i32, i64>,
    /// Lower bounds by field ID (serialized)
    pub lower_bounds: HashMap<i32, Vec<u8>>,
    /// Upper bounds by field ID (serialized)
    pub upper_bounds: HashMap<i32, Vec<u8>>,
    /// NaN value counts by field ID
    pub nan_value_counts: HashMap<i32, i64>,
}

/// What file statistics hold.
pub struct FileMetricsView {
    pub record_count: i64,
    pub null_counts: Map<i32, i64>,
    pub lower: Map<i32, Seq<u8>>,
    pub upper: Map<i32, Seq<u8>>,
    pub nan_counts: Map<i32, i64>,
}

impl View for FileMetrics {
    type V = FileMetricsView;

    open spec fn view(&self) -> FileMetricsView {
        FileMetricsView {
            record_count: self.record_count,
            null_counts: self.null_value_counts@,
            lower: crate::manifest::content_file::bound_bytes(self.lower_bounds@),
            upper: crate::manifest::content_file::bound_bytes(self.upper_bounds@),
            nan_counts: self.nan_value_counts@,
        }
    }
}

impl FileMetrics {
    /// Statistics of a file with the given record count and nothing else known.
    pub fn new(record_count: i64) -> (r: FileMetrics)
        ensures
            r@.record_count == record_count,
            r@.null_counts == Map::<i32, i64>::empty(),
            r@.lower == Map::<i32, Seq<u8>>::empty(),
            r@.upper == Map::<i32, Seq<u8>>::empty(),
            r@.nan_counts == Map::<i32, i64>::empty(),
    {
        let r = FileMetrics {
            record_count,
            null_value_counts: HashMap::new(),
            lower_bounds: HashMap::new(),
            upper_bounds: HashMap::new(),
            nan_value_counts: HashMap::new(),
        };
        assert(r@.lower =~= Map::<i32, Seq<u8>>::empty());
        assert(r@.upper =~= Map::<i32, Seq<u8>>::empty());
        r
    }

    /// Sets the null value counts.
    pub fn with_null_counts(self, counts: HashMap<i32, i64>) -> (r: FileMetrics)
        ensures
            r@ == (FileMetricsView { null_counts: counts@, ..self@ }),
    {
        FileMetrics { null_value_counts: counts, ..self }
    }

    /// Sets the lower bounds.
    pub fn with_lower_bounds(self, bounds: HashMap<i32, Vec<u8>>) -> (r: FileMetrics)
        ensures
            r@ == (FileMetricsView { lower: crate::manifest::content_file::bound_bytes(bounds@), ..self@ }),
    {
        FileMetrics { lower_bounds: bounds, ..self }
    }

    /// Sets the upper bounds.
    pub fn with_upper_bounds(self, bounds: HashMap<i32, Vec<u8>>) -> (r: FileMetrics)
        ensures
            r@ == (FileMetricsView { upper: crate::manifest::content_file::bound_bytes(bounds@), ..self@ }),
    {
        FileMetrics { upper_bounds: bounds, ..self }
    }
}

impl Default for FileMetrics {
    fn default() -> (r: FileMetrics)
        ensures
            r@.record_count == 0,
            r@.null_counts == Map::<i32, i64>::empty(),
            r@.lower == Map::<i32, Seq<u8>>::empty(),
            r@.upper == Map::<i32, Seq<u8>>::empty(),
            r@.nan_counts == Map::<i32, i64>::empty(),
    {
        FileMetrics::new(0)
    }
}

/// What `String::from_utf8_lossy` gives for these bytes.
pub uninterp spec fn utf8_lossy(bytes: Seq<u8>) -> Seq<char>;

/// Calls `String::from_utf8_lossy` and takes the result as an owned string; the
/// result is named `utf8_lossy`, a function of the bytes alone (UTF-8 decoding with
/// replacement characters is not restated here).
#[verifier::external_body]
fn lossy_string(bytes: &[u8]) -> (r: String)
    ensures
        r@ == utf8_lossy(bytes@),
{
    String::from_utf8_lossy(bytes).into_owned()
}

/// The unsigned number of four little-endian bytes.
pub open spec fn le_u32_value(b: Seq<u8>) -> int {
    b[0] + 256 * b[1] + 65536 * b[2] + 16777216 * b[3]
}

/// The unsigned number of eight little-endian bytes.
pub open spec fn le_u64_value(b: Seq<u8>) -> int {
    le_u32_value(b) + 4294967296 * le_u32_value(b.subrange(4, 8))
}

/// The value a serialized bound is read as: four bytes a little-endian `int`, eight
/// bytes a little-endian `long`, any other length a string.
pub open spec fn bound_datum(b: Seq<u8>) -> DatumView {
    if b.len() == 4 {
        DatumView::Int(le_u32_value(b) as u32 as i32)
    } else if b.len() == 8 {
        DatumView::Long(le_u64_value(b) as u64 as i64)
    } else {
        DatumView::String(utf8_lossy(b))
    }
}

/// Reads a serialized bound.
fn bytes_to_datum(bytes: &[u8]) -> (r: Datum)
    ensures
        r@ == bound_datum(bytes@),
{
    if bytes.len() == 4 {
        let v: u32 = bytes[0] as u32 + 256 * (bytes[1] as u32) + 65536 * (bytes[2] as u32) + 16777216 * (
        bytes[3] as u32);
        Datum::Int(v as i32)
    } else if bytes.len() == 8 {
        let lo: u64 = bytes[0] as u64 + 256 * (bytes[1] as u64) + 65536 * (bytes[2] as u64) + 16777216 * (
        bytes[3] as u64);
        let hi: u64 = bytes[4] as u64 + 256 * (bytes[5] as u64) + 65536 * (bytes[6] as u64) + 16777216 * (
        bytes[7] as u64);
        assert(bytes@.subrange(4, 8)[0] == bytes@[4] && bytes@.subrange(4, 8)[1] == bytes@[5]
            && bytes@.subrange(4, 8)[2] == bytes@[6] && bytes@.subrange(4, 8)[3] == bytes@[7]);
        let v: u64 = lo + 4294967296 * hi;
        Datum::Long(v as i64)
    } else {
        Datum::String(lossy_string(bytes))
    }
}

/// A comparison code below zero (the bound orders first).
pub open spec fn code_below(c: Option<int>) -> bool {
    c matches Some(x) && x < 0
}

/// A comparison code above zero (the bound orders last).
pub open spec fn code_above(c: Option<int>) -> bool {
    c matches Some(x) && x > 0
}

/// Whether a file with these statistics may hold rows that pass one filter: a
/// missing statistic or a missing filter value never rules a file out.
pub open spec fn filter_may_match(f: MetricsFilterView, m: FileMetricsView) -> bool {
    let id = f.field_id;
    match f.operation {
        MetricsOperation::NotNull => m.null_counts.contains_key(id) ==> m.null_counts[id] < m.record_count,
        MetricsOperation::IsNull => m.null_counts.contains_key(id) ==> m.null_counts[id] > 0,
        MetricsOperation::LessThan => match f.value {
            Some(v) => m.lower.contains_key(id) ==> code_below(datum_order_code(bound_datum(m.lower[id]), v)),
            None => true,
        },
        MetricsOperation::LessThanOrEqual => match f.value {
            Some(v) => m.lower.contains_key(id) ==> {
                let c = datum_order_code(bound_datum(m.lower[id]), v);
                c is Some && !code_above(c)
            },
            None => true,
        },
        MetricsOperation::GreaterThan => match f.value {
            Some(v) => m.upper.contains_key(id) ==> code_above(datum_order_code(bound_datum(m.upper[id]), v)),
            None => true,
        },
        MetricsOperation::GreaterThanOrEqual => match f.value {
            Some(v) => m.upper.contains_key(id) ==> {
                let c = datum_order_code(bound_datum(m.upper[id]), v);
                c is Some && !code_below(c)
            },
            None => true,
        },
        MetricsOperation::Equal => match f.value {
            Some(v) => {
                &&& m.lower.contains_key(id) ==> {
                    let c = datum_order_code(bound_datum(m.lower[id]), v);
                    c is Some && !code_above(c)
                }
                &&& m.upper.contains_key(id) ==> {
                    let c = datum_order_code(bound_datum(m.upper[id]), v);
                    c is Some && !code_below(c)
                }
            },
            None => true,
        },
        _ => true,
    }
}

/// Whether a file with these statistics may hold rows that pass every filter.
pub open spec fn metrics_may_match(filters: Seq<MetricsFilterView>, m: FileMetricsView) -> bool {
    forall|i: int| 0 <= i < filters.len() ==> #[trigger] filter_may_match(filters[i], m)
}

/// The filter on the same column and value with another operation.
pub open spec fn with_operation(f: MetricsFilterView, op: MetricsOperation) -> MetricsFilterView {
    MetricsFilterView { operation: op, ..f }
}

/// For a column whose bounds decode to the integers `lo` and `hi`, a filter keeps the
/// file exactly when some integer in `lo..=hi` passes it: `< x` when `lo < x`, `<= x`
/// when `lo <= x`, `> x` when `hi > x`, `>= x` when `hi >= x`, and `== x` when
/// `lo <= x <= hi`, so a file whose range has `x` at either end is kept.
pub proof fn lemma_int_bounds_keep_exactly(f: MetricsFilterView, m: FileMetricsView, lo: i32, hi: i32, x: i32)
    requires
        f.value == Some(DatumView::Int(x)),
        m.lower.contains_key(f.field_id),
        m.upper.contains_key(f.field_id),
        bound_datum(m.lower[f.field_id]) == DatumView::Int(lo),
        bound_datum(m.upper[f.field_id]) == DatumView::Int(hi),
    ensures
        filter_may_match(with_operation(f, MetricsOperation::LessThan), m) <==> lo < x,
        filter_may_match(with_operation(f, MetricsOperation::LessThanOrEqual), m) <==> lo <= x,
        filter_may_match(with_operation(f, MetricsOperation::GreaterThan), m) <==> hi > x,
        filter_may_match(with_operation(f, MetricsOperation::GreaterThanOrEqual), m) <==> hi >= x,
        filter_may_match(with_operation(f, MetricsOperation::Equal), m) <==> lo <= x <= hi,
{
}

/// How the comparison filters on one column and value relate: a strict bound keeps no
/// file the non-strict one prunes, and an equality keeps a file exactly when both
/// non-strict bounds do, for a column with both bounds known.
pub proof fn lemma_comparison_filters_relate(f: MetricsFilterView, m: FileMetricsView)
    requires
        f.value is Some,
    ensures
        filter_may_match(with_operation(f, MetricsOperation::LessThan), m) ==> filter_may_match(
            with_operation(f, MetricsOperation::LessThanOrEqual),
            m,
        ),
        filter_may_match(with_operation(f, MetricsOperation::GreaterThan), m) ==> filter_may_match(
            with_operation(f, MetricsOperation::GreaterThanOrEqual),
            m,
        ),
        filter_may_match(with_operation(f, MetricsOperation::Equal), m) <==> (filter_may_match(
            with_operation(f, MetricsOperation::LessThanOrEqual),
            m,
        ) && filter_may_match(with_operation(f, MetricsOperation::GreaterThanOrEqual), m)),
{
}

/// Pruning is sound for equality: a file whose bounds enclose the value, each known
/// bound comparing with it and being at most (lower) or at least (upper) it, is kept;
/// in particular a file whose lower or upper bound is the value itself.
pub proof fn lemma_equality_keeps_enclosing_file(f: MetricsFilterView, m: FileMetricsView, v: DatumView)
    requires
        f.operation == MetricsOperation::Equal,
        f.value == Some(v),
        m.lower.contains_key(f.field_id) ==> (datum_order_code(bound_datum(m.lower[f.field_id]), v) matches Some(
            c,
        ) && c <= 0),
        m.upper.contains_key(f.field_id) ==> (datum_order_code(bound_datum(m.upper[f.field_id]), v) matches Some(
            c,
        ) && c >= 0),
    ensures
        filter_may_match(f, m),
{
}

/// Decides from file statistics whether a file may hold matching rows; it may accept
/// a file with none, but never rejects one that has some.
#[derive(Debug)]
pub struct InclusiveMetricsEvaluator {
    filters: Vec<MetricsFilter>,
}

/// The views of a list of filters.
pub open spec fn filter_views(fs: Seq<MetricsFilter>) -> Seq<MetricsFilterView> {
    Seq::new(fs.len(), |i: int| fs[i]@)
}

impl View for InclusiveMetricsEvaluator {
    type V = Seq<MetricsFilterView>;

    closed spec fn view(&self) -> Seq<MetricsFilterView> {
        filter_views(self.filters@)
    }
}

/// The bound of a column in a map of bounds.
fn bound_of(bounds: &HashMap<i32, Vec<u8>>, id: i32) -> (r: Option<&Vec<u8>>)
    ensures
        match r {
            Some(b) => bounds@.contains_key(id) && bounds@[id]@ == b@
                && crate::manifest::content_file::bound_bytes(bounds@)[id] == b@,
            None => !bounds@.contains_key(id),
        },
{
    bounds.get(&id)
}

impl InclusiveMetricsEvaluator {
    /// An evaluator with no filters.
    pub fn new() -> (r: InclusiveMetricsEvaluator)
        ensures
            r@ == Seq::<MetricsFilterView>::empty(),
    {
        let r = InclusiveMetricsEvaluator { filters: Vec::new() };
        assert(r@ =~= Seq::<MetricsFilterView>::empty());
        r
    }

    /// An evaluator that accepts every file.
    pub fn always_true() -> (r: InclusiveMetricsEvaluator)
        ensures
            r@ == Seq::<MetricsFilterView>::empty(),
    {
        InclusiveMetricsEvaluator::new()
    }

    /// Adds a filter.
    pub fn add_filter(&mut self, filter: MetricsFilter)
        ensures
            final(self)@ == old(self)@.push(filter@),
    {
        self.filters.push(filter);
        assert(self@ =~= old(self)@.push(filter@));
    }

    fn with_filter(self, field_id: i32, operation: MetricsOperation, value: Option<Datum>) -> (r: InclusiveMetricsEvaluator)
        ensures
            r@ == self@.push(MetricsFilterView {
                field_id,
                operation,
                value: match value {
                    Some(d) => Some(d@),
                    None => None,
                },
            }),
    {
        let mut r = self;
        r.add_filter(MetricsFilter { field_id, operation, value });
        r
    }

    /// Adds a NOT NULL filter.
    pub fn not_null(self, field_id: i32) -> (r: InclusiveMetricsEvaluator)
        ensures
            r@ == self@.push(MetricsFilterView { field_id, operation: MetricsOperation::NotNull, value: None }),
    {
        self.with_filter(field_id, MetricsOperation::NotNull, None)
    }

    /// Adds an IS NULL filter.
    pub fn is_null(self, field_id: i32) -> (r: InclusiveMetricsEvaluator)
        ensures
            r@ == self@.push(MetricsFilterView { field_id, operation: MetricsOperation::IsNull, value: None }),
    {
        self.with_filter(field_id, MetricsOperation::IsNull, None)
    }

    /// Adds a less-than filter.
    pub fn less_than(self, field_id: i32, value: Datum) -> (r: InclusiveMetricsEvaluator)
        ensures
            r@ == self@.push(MetricsFilterView { field_id, operation: MetricsOperation::LessThan, value: Some(value@) }),
    {
        self.with_filter(field_id, MetricsOperation::LessThan, Some(value))
    }

    /// Adds a greater-than filter.
    pub fn greater_than(self, field_id: i32, value: Datum) -> (r: InclusiveMetricsEvaluator)
        ensures
            r@ == self@.push(
                MetricsFilterView { field_id, operation: MetricsOperation::GreaterThan, value: Some(value@) },
            ),
    {
        self.with_filter(field_id, MetricsOperation::GreaterThan, Some(value))
    }

    /// Adds an equality filter.
    pub fn equal(self, field_id: i32, value: Datum) -> (r: InclusiveMetricsEvaluator)
        ensures
            r@ == self@.push(MetricsFilterView { field_id, operation: MetricsOperation::Equal, value: Some(value@) }),
    {
        self.with_filter(field_id, MetricsOperation::Equal, Some(value))
    }

    /// A copy of this evaluator.
    pub fn duplicate(&self) -> (r: InclusiveMetricsEvaluator)
        ensures
            r@ == self@,
    {
        let mut filters: Vec<MetricsFilter> = Vec::new();
        let mut i: usize = 0;
        while i < self.filters.len()
            invariant
                i <= self.filters.len(),
                filters@.len() == i,
                forall|k: int| 0 <= k < i ==> (#[trigger] filters@[k])@ == self.filters@[k]@,
            decreases self.filters.len() - i,
        {
            let f = &self.filters[i];
            let value = match &f.value {
                Some(d) => Some(d.duplicate()),
                None => None,
            };
            let nf = MetricsFilter { field_id: f.field_id, operation: f.operation, value };
            assert(nf@ == f@);
            filters.push(nf);
            i = i + 1;
        }
        let r = InclusiveMetricsEvaluator { filters };
        assert(r@ =~= self@);
        r
    }

    /// Whether a file with these statistics may hold rows that pass every filter.
    pub fn eval(&self, metrics: &FileMetrics) -> (r: bool)
        ensures
            r == metrics_may_match(self@, metrics@),
    {
        let mut i: usize = 0;
        while i < self.filters.len()
            invariant
                i <= self.filters.len(),
                forall|k: int| 0 <= k < i ==> #[trigger] filter_may_match(self@[k], metrics@),
            decreases self.filters.len() - i,
        {
            if !eval_filter(&self.filters[i], metrics) {
                assert(!filter_may_match(self@[i as int], metrics@));
                return false;
            }
            i = i + 1;
        }
        true
    }
}

/// Whether the bound under `id` compares to `value` by a code that `pass` accepts
/// (-1 below, 0 equal, 1 above); true when there is no bound.
fn bound_passes(bounds: &HashMap<i32, Vec<u8>>, id: i32, value: &Datum, below: bool, equal: bool, above: bool) -> (r: bool)
    ensures
        r == (crate::manifest::content_file::bound_bytes(bounds@).contains_key(id) ==> {
            let c = datum_order_code(bound_datum(crate::manifest::content_file::bound_bytes(bounds@)[id]), value@);
            match c {
                Some(x) => (x < 0 && below) || (x == 0 && equal) || (x > 0 && above),
                None => false,
            }
        }),
{
    match bound_of(bounds, id) {
        Some(b) => {
            let d = bytes_to_datum(b.as_slice());
            match compare_code(&d, value) {
                Some(c) => (c < 0 && below) || (c == 0 && equal) || (c > 0 && above),
                None => false,
            }
        },
        None => true,
    }
}

/// Whether a file with these statistics may hold rows that pass the filter.
fn eval_filter(filter: &MetricsFilter, metrics: &FileMetrics) -> (r: bool)
    ensures
        r == filter_may_match(filter@, metrics@),
{
    let id = filter.field_id;
    match filter.operation {
        MetricsOperation::NotNull => match metrics.null_value_counts.get(&id) {
            Some(n) => *n < metrics.record_count,
            None => true,
        },
        MetricsOperation::IsNull => match metrics.null_value_counts.get(&id) {
            Some(n) => *n > 0,
            None => true,
        },
        MetricsOperation::LessThan => match &filter.value {
            Some(v) => bound_passes(&metrics.lower_bounds, id, v, true, false, false),
            None => true,
        },
        MetricsOperation::LessThanOrEqual => match &filter.value {
            Some(v) => bound_passes(&metrics.lower_bounds, id, v, true, true, false),
            None => true,
        },
        MetricsOperation::GreaterThan => match &filter.value {
            Some(v) => bound_passes(&metrics.upper_bounds, id, v, false, false, true),
            None => true,
        },
        MetricsOperation::GreaterThanOrEqual => match &filter.value {
            Some(v) => bound_passes(&metrics.upper_bounds, id, v, false, true, true),
            None => true,
        },
        MetricsOperation::Equal => match &filter.value {
            Some(v) => {
                let lower_ok = bound_passes(&metrics.lower_bounds, id, v, true, true, false);
                let upper_ok = bound_passes(&metrics.upper_bounds, id, v, false, true, true);
                lower_ok && upper_ok
            },
            None => true,
        },
        _ => true,
    }
}

impl Default for InclusiveMetricsEvaluator {
    fn default() -> (r: InclusiveMetricsEvaluator)
        ensures
            r@ == Seq::<MetricsFilterView>::empty(),
    {
        InclusiveMetricsEvaluator::new()
    }
}

/// Whether two `float` bit patterns are equal as numbers: neither is NaN, and they
/// are the same or both zeros.
pub open spec fn f32_bits_equal(a: u32, b: u32) -> bool {
    &&& (a & 0x7fff_ffffu32) <= 0x7f80_0000u32
    &&& (b & 0x7fff_ffffu32) <= 0x7f80_0000u32
    &&& (a == b || ((a & 0x7fff_ffffu32) == 0 && (b & 0x7fff_ffffu32) == 0))
}

/// Whether two `double` bit patterns are equal as numbers.
pub open spec fn f64_bits_equal(a: u64, b: u64) -> bool {
    &&& (a & 0x7fff_ffff_ffff_ffffu64) <= 0x7ff0_0000_0000_0000u64
    &&& (b & 0x7fff_ffff_ffff_ffffu64) <= 0x7ff0_0000_0000_0000u64
    &&& (a == b || ((a & 0x7fff_ffff_ffff_ffffu64) == 0 && (b & 0x7fff_ffff_ffff_ffffu64) == 0))
}

/// Whether two partition values are equal: of the same kind and value, floating-point
/// values compared as numbers.
pub open spec fn values_equal(a: PartitionValueView, b: PartitionValueView) -> bool {
    match (a, b) {
        (PartitionValueView::Float(x), PartitionValueView::Float(y)) => f32_bits_equal(x, y),
        (PartitionValueView::Double(x), PartitionValueView::Double(y)) => f64_bits_equal(x, y),
        (PartitionValueView::Float(_), _) => false,
        (PartitionValueView::Double(_), _) => false,
        _ => a == b,
    }
}

/// Whether two partition tuples are equal value by value.
pub open spec fn partitions_equal(a: Seq<PartitionValueView>, b: Seq<PartitionValueView>) -> bool {
    a.len() == b.len() && forall|i: int| 0 <= i < a.len() ==> #[trigger] values_equal(a[i], b[i])
}

fn value_eq(a: &PartitionValue, b: &PartitionValue) -> (r: bool)
    ensures
        r == values_equal(a@, b@),
{
    match (a, b) {
        (PartitionValue::Null, PartitionValue::Null) => true,
        (PartitionValue::Boolean(x), PartitionValue::Boolean(y)) => *x == *y,
        (PartitionValue::Int(x), PartitionValue::Int(y)) => *x == *y,
        (PartitionValue::Long(x), PartitionValue::Long(y)) => *x == *y,
        (PartitionValue::Float(x), PartitionValue::Float(y)) => {
            let (x, y) = (*x, *y);
            (x & 0x7fff_ffffu32) <= 0x7f80_0000u32 && (y & 0x7fff_ffffu32) <= 0x7f80_0000u32 && (x == y || ((x
                & 0x7fff_ffffu32) == 0 && (y & 0x7fff_ffffu32) == 0))
        },
        (PartitionValue::Double(x), PartitionValue::Double(y)) => {
            let (x, y) = (*x, *y);
            (x & 0x7fff_ffff_ffff_ffffu64) <= 0x7ff0_0000_0000_0000u64 && (y & 0x7fff_ffff_ffff_ffffu64)
                <= 0x7ff0_0000_0000_0000u64 && (x == y || ((x & 0x7fff_ffff_ffff_ffffu64) == 0 && (y
                & 0x7fff_ffff_ffff_ffffu64) == 0))
        },
        (PartitionValue::String(x), PartitionValue::String(y)) => str_eq(x.as_str(), y.as_str()),
        (PartitionValue::Binary(x), PartitionValue::Binary(y)) => bytes_eq(x.as_slice(), y.as_slice()),
        (PartitionValue::Date(x), PartitionValue::Date(y)) => *x == *y,
        (PartitionValue::Time(x), PartitionValue::Time(y)) => *x == *y,
        (PartitionValue::Timestamp(x), PartitionValue::Timestamp(y)) => *x == *y,
        (PartitionValue::Uuid(x), PartitionValue::Uuid(y)) => bytes_eq(x.as_slice(), y.as_slice()),
        _ => false,
    }
}

/// Whether two partition tuples are equal value by value.
pub fn partition_eq(a: &PartitionData, b: &PartitionData) -> (r: bool)
    ensures
        r == partitions_equal(a@, b@),
{
    if a.len() != b.len() {
        return false;
    }
    let av = a.values();
    let bv = b.values();
    let mut i: usize = 0;
    while i < av.len()
        invariant
            i <= av.len(),
            av.len() == bv.len(),
            partition_views(av@) == a@,
            partition_views(bv@) == b@,
            forall|k: int| 0 <= k < i ==> #[trigger] values_equal(a@[k], b@[k]),
        decreases av.len() - i,
    {
        assert(a@[i as int] == av@[i as int]@ && b@[i as int] == bv@[i as int]@);
        if !value_eq(&av[i], &bv[i]) {
            return false;
        }
        i = i + 1;
    }
    true
}

/// A set of partition tuples, by partition spec.
#[derive(Debug)]
pub struct PartitionSet {
    partitions: HashMap<i32, Vec<PartitionData>>,
}

/// The tuples of a list of partitions.
pub open spec fn partition_list(ps: Seq<PartitionData>) -> Seq<Seq<PartitionValueView>> {
    Seq::new(ps.len(), |i: int| ps[i]@)
}

impl View for PartitionSet {
    type V = Map<i32, Seq<Seq<PartitionValueView>>>;

    closed spec fn view(&self) -> Map<i32, Seq<Seq<PartitionValueView>>> {
        self.partitions@.map_values(|v: Vec<PartitionData>| partition_list(v@))
    }
}

/// Whether a set holds a tuple equal to `p` under spec `spec_id`.
pub open spec fn set_holds(s: Map<i32, Seq<Seq<PartitionValueView>>>, spec_id: i32, p: Seq<PartitionValueView>) -> bool {
    s.contains_key(spec_id) && exists|i: int| 0 <= i < s[spec_id].len() && #[trigger] partitions_equal(s[spec_id][i], p)
}

/// The set after `add(spec_id, p)`.
pub open spec fn set_with(
    s: Map<i32, Seq<Seq<PartitionValueView>>>,
    spec_id: i32,
    p: Seq<PartitionValueView>,
) -> Map<i32, Seq<Seq<PartitionValueView>>> {
    s.insert(
        spec_id,
        (if s.contains_key(spec_id) {
            s[spec_id]
        } else {
            Seq::empty()
        }).push(p),
    )
}

/// A tuple added under a spec is then held under it, when the tuple equals itself (it
/// holds no NaN, which equals nothing); and whatever was held before is held after.
pub proof fn lemma_added_partition_is_held(
    s: Map<i32, Seq<Seq<PartitionValueView>>>,
    spec_id: i32,
    p: Seq<PartitionValueView>,
    other_spec: i32,
    q: Seq<PartitionValueView>,
)
    ensures
        partitions_equal(p, p) ==> set_holds(set_with(s, spec_id, p), spec_id, p),
        set_holds(s, other_spec, q) ==> set_holds(set_with(s, spec_id, p), other_spec, q),
{
    let t = set_with(s, spec_id, p);
    let list = if s.contains_key(spec_id) {
        s[spec_id]
    } else {
        Seq::<Seq<PartitionValueView>>::empty()
    };
    assert(t[spec_id] == list.push(p));
    if partitions_equal(p, p) {
        assert(t[spec_id][list.len() as int] == p);
        assert(partitions_equal(t[spec_id][list.len() as int], p));
    }
    if set_holds(s, other_spec, q) {
        let i = choose|i: int| 0 <= i < s[other_spec].len() && #[trigger] partitions_equal(s[other_spec][i], q);
        if other_spec == spec_id {
            assert(t[spec_id][i] == s[spec_id][i]);
        } else {
            assert(t[other_spec] == s[other_spec]);
        }
        assert(partitions_equal(t[other_spec][i], q));
    }
}

impl PartitionSet {
    /// An empty set.
    pub fn new() -> (r: PartitionSet)
        ensures
            r@ == Map::<i32, Seq<Seq<PartitionValueView>>>::empty(),
    {
        let r = PartitionSet { partitions: HashMap::new() };
        assert(r@ =~= Map::<i32, Seq<Seq<PartitionValueView>>>::empty());
        r
    }

    /// Adds a tuple under a partition spec.
    pub fn add(&mut self, spec_id: i32, partition: PartitionData)
        ensures
            final(self)@ == old(self)@.insert(
                spec_id,
                (if old(self)@.contains_key(spec_id) {
                    old(self)@[spec_id]
                } else {
                    Seq::empty()
                }).push(partition@),
            ),
    {
        let ghost p = partition@;
        let ghost old_map = self.partitions@;
        let mut parts = match self.partitions.remove(&spec_id) {
            Some(v) => v,
            None => Vec::new(),
        };
        let ghost before = partition_list(parts@);
        assert(before == if old_map.contains_key(spec_id) {
            old(self)@[spec_id]
        } else {
            Seq::<Seq<PartitionValueView>>::empty()
        }) by {
            if !old_map.contains_key(spec_id) {
                assert(before =~= Seq::<Seq<PartitionValueView>>::empty());
            }
        }
        parts.push(partition);
        assert(partition_list(parts@) =~= before.push(p));
        self.partitions.insert(spec_id, parts);
        assert(self.partitions@ == old_map.remove(spec_id).insert(spec_id, parts));
        assert(self@ =~= old(self)@.insert(
            spec_id,
            (if old(self)@.contains_key(spec_id) {
                old(self)@[spec_id]
            } else {
                Seq::empty()
            }).push(p),
        ));
    }

    /// Whether the set holds a tuple equal to `partition` under `spec_id`.
    pub fn contains(&self, spec_id: i32, partition: &PartitionData) -> (r: bool)
        ensures
            r == set_holds(self@, spec_id, partition@),
    {
        match self.partitions.get(&spec_id) {
            Some(parts) => {
                let ghost ps = partition_list(parts@);
                let mut i: usize = 0;
                while i < parts.len()
                    invariant
                        i <= parts.len(),
                        ps == partition_list(parts@),
                        self@.contains_key(spec_id),
                        self@[spec_id] == ps,
                        forall|k: int| 0 <= k < i ==> !#[trigger] partitions_equal(ps[k], partition@),
                    decreases parts.len() - i,
                {
                    if partition_eq(&parts[i], partition) {
                        assert(partitions_equal(ps[i as int], partition@));
                        return true;
                    }
                    i = i + 1;
                }
                false
            },
            None => false,
        }
    }

    /// A copy of this set.
    pub fn duplicate(&self) -> (r: PartitionSet)
        ensures
            r@ == self@,
    {
        let mut partitions: HashMap<i32, Vec<PartitionData>> = HashMap::new();
        for entry in it: self.partitions.iter()
            invariant
                forall|k: i32| #[trigger] partitions@.contains_key(k) ==> self.partitions@.contains_key(k)
                    && partition_list(partitions@[k]@) == partition_list(self.partitions@[k]@),
                forall|j: int| 0 <= j < it.index() ==> partitions@.contains_key(*(#[trigger] it.seq()[j]).0),
                forall|j: int| 0 <= j < it.seq().len() ==> self.partitions@.contains_key(*(#[trigger] it.seq()[j]).0)
                    && self.partitions@[*it.seq()[j].0] == *it.seq()[j].1,
                forall|k: i32| #[trigger] self.partitions@.contains_key(k) ==> exists|j: int|
                    0 <= j < it.seq().len() && *(#[trigger] it.seq()[j]).0 == k,
        {
            let (k, v) = entry;
            let mut copy: Vec<PartitionData> = Vec::new();
            let mut i: usize = 0;
            while i < v.len()
                invariant
                    i <= v.len(),
                    partition_list(copy@) == partition_list(v@).take(i as int),
                decreases v.len() - i,
            {
                let d = v[i].duplicate();
                let ghost before = copy@;
                copy.push(d);
                assert(copy@ == before.push(d));
                i = i + 1;
                assert(partition_list(copy@) =~= partition_list(v@).take(i as int)) by {
                    assert(partition_list(before) == partition_list(v@).take(i - 1));
                }
            }
            assert(partition_list(copy@) =~= partition_list(v@));
            partitions.insert(*k, copy);
        }
        let r = PartitionSet { partitions };
        assert(r@ =~= self@) by {
            assert forall|k: i32| #[trigger] self@.contains_key(k) implies r@.contains_key(k) by {
                assert(self.partitions@.contains_key(k));
            }
        }
        r
    }

    /// Whether the set holds no spec.
    pub fn is_empty(&self) -> (r: bool)
        ensures
            r == self@.is_empty(),
    {
        assert(self@.dom() =~= self.partitions@.dom());
        self.partitions.is_empty()
    }
}

impl Default for PartitionSet {
    fn default() -> (r: PartitionSet)
        ensures
            r@ == Map::<i32, Seq<Seq<PartitionValueView>>>::empty(),
    {
        PartitionSet::new()
    }
}

} // verus!
