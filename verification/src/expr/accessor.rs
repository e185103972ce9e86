//! Access to the fields of a row, by position or by field id.
use vstd::prelude::*;
use super::datum::{Datum, DatumView};

verus! {

/// The value at position `pos` of a row, `null` past its end.
pub open spec fn field_at(row: Seq<DatumView>, pos: int) -> DatumView {
    if 0 <= pos < row.len() {
        row[pos]
    } else {
        DatumView::Null
    }
}

/// The views of a sequence of values.
pub open spec fn datum_views(values: Seq<Datum>) -> Seq<DatumView> {
    Seq::new(values.len(), |i: int| values[i]@)
}

/// Provides access to fields in a struct-like data row.
pub trait Accessor {
    /// The values of the row, in field order.
    spec fn row(&self) -> Seq<DatumView>;

    /// The value at the given field position, `null` past the end of the row.
    fn get(&self, pos: usize) -> (r: Datum)
        ensures
            r@ == field_at(self.row(), pos as int),
    ;

    /// The number of fields.
    fn size(&self) -> (r: usize)
        ensures
            r == self.row().len(),
    ;
}

/// The value at `pos` of `values`, `null` past the end.
fn value_at(values: &Vec<Datum>, pos: usize) -> (r: Datum)
    ensures
        r@ == field_at(datum_views(values@), pos as int),
{
    if pos < values.len() {
        values[pos].duplicate()
    } else {
        Datum::null()
    }
}

/// A simple struct-like row.
#[derive(Debug)]
pub struct StructAccessor {
    values: Vec<Datum>,
}

impl StructAccessor {
    /// A row holding the given values.
    pub fn new(values: Vec<Datum>) -> (r: StructAccessor)
        ensures
            r.row() == datum_views(values@),
    {
        StructAccessor { values }
    }

    /// A row without fields.
    pub fn empty() -> (r: StructAccessor)
        ensures
            r.row() == Seq::<DatumView>::empty(),
    {
        StructAccessor { values: Vec::new() }
    }

    /// This row with one more value at its end.
    pub fn with_value(self, value: Datum) -> (r: StructAccessor)
        ensures
            r.row() == self.row().push(value@),
    {
        let mut values = self.values;
        values.push(value);
        let r = StructAccessor { values };
        assert(r.row() =~= self.row().push(value@));
        r
    }

    /// Replaces the value at `pos`; a position past the end changes nothing.
    pub fn set(&mut self, pos: usize, value: Datum)
        ensures
            final(self).row() == if pos < old(self).row().len() {
                old(self).row().update(pos as int, value@)
            } else {
                old(self).row()
            },
    {
        if pos < self.values.len() {
            let ghost before = self.row();
            self.values.set(pos, value);
            assert(self.row() =~= before.update(pos as int, value@));
        }
    }
}

impl Accessor for StructAccessor {
    closed spec fn row(&self) -> Seq<DatumView> {
        datum_views(self.values@)
    }

    fn get(&self, pos: usize) -> (r: Datum) {
        value_at(&self.values, pos)
    }

    fn size(&self) -> (r: usize) {
        self.values.len()
    }
}

/// The position of the last occurrence of `id` in `ids`, if any.
pub open spec fn last_position(ids: Seq<i32>, id: i32) -> Option<int>
    decreases ids.len(),
{
    if ids.len() == 0 {
        None
    } else if ids.last() == id {
        Some(ids.len() - 1)
    } else {
        last_position(ids.drop_last(), id)
    }
}

proof fn lemma_last_position_bounds(ids: Seq<i32>, id: i32)
    ensures
        last_position(ids, id) matches Some(p) ==> 0 <= p < ids.len() && ids[p] == id,
    decreases ids.len(),
{
    if ids.len() > 0 && ids.last() != id {
        lemma_last_position_bounds(ids.drop_last(), id);
    }
}

/// The values of a partition tuple, each under the id of its partition field; a field
/// id given twice refers to its latest value.
#[derive(Debug)]
pub struct PartitionAccessor {
    field_ids: Vec<i32>,
    values: Vec<Datum>,
}

impl PartitionAccessor {
    /// Equal lengths of the id and value lists.
    pub closed spec fn wf(&self) -> bool {
        self.field_ids.len() == self.values.len()
    }

    /// The field ids, in the order the fields were added.
    pub closed spec fn ids(&self) -> Seq<i32> {
        self.field_ids@
    }

    /// The value stored under field id `id`, `null` for an unknown id.
    pub open spec fn value_of(&self, id: i32) -> DatumView {
        match last_position(self.ids(), id) {
            Some(p) => self.row()[p],
            None => DatumView::Null,
        }
    }

    /// An accessor without fields.
    pub fn new() -> (r: PartitionAccessor)
        ensures
            r.wf(),
            r.ids() == Seq::<i32>::empty(),
            r.row() == Seq::<DatumView>::empty(),
    {
        PartitionAccessor { field_ids: Vec::new(), values: Vec::new() }
    }

    /// This accessor with one more field, `value` under `field_id`.
    pub fn with_field(self, field_id: i32, value: Datum) -> (r: PartitionAccessor)
        requires
            self.wf(),
        ensures
            r.wf(),
            r.ids() == self.ids().push(field_id),
            r.row() == self.row().push(value@),
    {
        let mut field_ids = self.field_ids;
        let mut values = self.values;
        field_ids.push(field_id);
        values.push(value);
        let r = PartitionAccessor { field_ids, values };
        assert(r.row() =~= self.row().push(value@));
        r
    }

    /// The value stored under `field_id`, `null` for an unknown id.
    pub fn get_by_id(&self, field_id: i32) -> (r: Datum)
        requires
            self.wf(),
        ensures
            r@ == self.value_of(field_id),
    {
        let mut i = self.field_ids.len();
        assert(self.field_ids@.take(i as int) =~= self.field_ids@);
        while i > 0
            invariant
                i <= self.field_ids.len() == self.values.len(),
                last_position(self.field_ids@, field_id) == last_position(
                    self.field_ids@.take(i as int),
                    field_id,
                ),
            decreases i,
        {
            assert(self.field_ids@.take(i as int).drop_last() =~= self.field_ids@.take(i - 1));
            if self.field_ids[i - 1] == field_id {
                return self.values[i - 1].duplicate();
            }
            i = i - 1;
        }
        Datum::null()
    }
}

impl Accessor for PartitionAccessor {
    closed spec fn row(&self) -> Seq<DatumView> {
        datum_views(self.values@)
    }

    fn get(&self, pos: usize) -> (r: Datum) {
        value_at(&self.values, pos)
    }

    fn size(&self) -> (r: usize) {
        self.values.len()
    }
}

} // verus!
