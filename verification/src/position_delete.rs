//! Position deletes of data files: the deleted row positions of each file, gathered
//! from the rows of position delete files, and which rows of a batch they keep.
use vstd::prelude::*;
use std::collections::HashSet;
use crate::text::str_eq;

verus! {

broadcast use vstd::std_specs::hash::group_hash_axioms;

/// The deleted row positions of one data file.
#[derive(Debug)]
pub struct PositionDeletes {
    /// Set of deleted positions
    pub deleted_positions: HashSet<i64>,
}

impl PositionDeletes {
    /// No deleted positions.
    pub fn new() -> (r: PositionDeletes)
        ensures
            r.deleted_positions@ == Set::<i64>::empty(),
    {
        PositionDeletes { deleted_positions: HashSet::new() }
    }

    /// Whether a position is deleted.
    pub fn is_deleted(&self, pos: i64) -> (r: bool)
        ensures
            r == self.deleted_positions@.contains(pos),
    {
        self.deleted_positions.contains(&pos)
    }

    /// Marks a position deleted.
    pub fn add_deleted(&mut self, pos: i64)
        ensures
            final(self).deleted_positions@ == old(self).deleted_positions@.insert(pos),
    {
        self.deleted_positions.insert(pos);
    }

    /// The number of deleted positions.
    pub fn len(&self) -> (r: usize)
        ensures
            r == self.deleted_positions@.len(),
    {
        self.deleted_positions.len()
    }

    /// Whether no position is deleted.
    pub fn is_empty(&self) -> (r: bool)
        ensures
            r == (self.deleted_positions@ == Set::<i64>::empty()),
    {
        let r = self.deleted_positions.is_empty();
        assert(self.deleted_positions@.is_empty() == (self.deleted_positions@ =~= Set::<i64>::empty()));
        r
    }

    /// Marks every position of `other` deleted too.
    pub fn extend(&mut self, other: &PositionDeletes)
        ensures
            final(self).deleted_positions@ == old(self).deleted_positions@.union(other.deleted_positions@),
    {
        let ghost base = self.deleted_positions@;
        let ghost mut seen: Set<i64> = Set::empty();
        for p in it: other.deleted_positions.iter()
            invariant
                self.deleted_positions@ == base.union(seen),
                seen.subset_of(other.deleted_positions@),
                it.seq().unref().to_set() == other.deleted_positions@,
                forall|x: i64| #[trigger] other.deleted_positions@.contains(x) ==> seen.contains(x) || exists|j: int|
                    it.index() <= j < it.seq().len() && it.seq().unref()[j] == x,
        {
            assert(it.seq().unref()[it.index() as int] == *p);
            assert(it.seq().unref().contains(*p));
            self.deleted_positions.insert(*p);
            proof {
                seen = seen.insert(*p);
            }
        }
        assert(self.deleted_positions@ =~= base.union(other.deleted_positions@));
    }

    /// A copy.
    pub fn duplicate(&self) -> (r: PositionDeletes)
        ensures
            r.deleted_positions@ == self.deleted_positions@,
    {
        let mut r = PositionDeletes::new();
        r.extend(self);
        assert(r.deleted_positions@ =~= self.deleted_positions@);
        r
    }
}

impl Default for PositionDeletes {
    fn default() -> (r: PositionDeletes)
        ensures
            r.deleted_positions@ == Set::<i64>::empty(),
    {
        PositionDeletes::new()
    }
}

/// The deleted positions gathered for each data file, one entry per file path.
pub open spec fn deletes_view(v: Seq<(String, PositionDeletes)>) -> Seq<(Seq<char>, Set<i64>)> {
    Seq::new(v.len(), |i: int| (v[i].0@, v[i].1.deleted_positions@))
}

/// The positions gathered under `key`: those of its entry, none when it has none.
pub open spec fn positions_under(v: Seq<(Seq<char>, Set<i64>)>, key: Seq<char>) -> Set<i64>
    decreases v.len(),
{
    if v.len() == 0 {
        Set::empty()
    } else if v[0].0 == key {
        v[0].1
    } else {
        positions_under(v.drop_first(), key)
    }
}

/// The entries with `s` added to the positions under `key` (a new entry at the end
/// when there is none).
pub open spec fn add_under(v: Seq<(Seq<char>, Set<i64>)>, key: Seq<char>, s: Set<i64>) -> Seq<(Seq<char>, Set<i64>)>
    decreases v.len(),
{
    if v.len() == 0 {
        seq![(key, s)]
    } else if v[0].0 == key {
        v.update(0, (key, v[0].1.union(s)))
    } else {
        seq![v[0]] + add_under(v.drop_first(), key, s)
    }
}

/// The entries after the rows of a position delete file: each row with both a path
/// and a position adds the position under the path.
pub open spec fn add_rows(v: Seq<(Seq<char>, Set<i64>)>, rows: Seq<(Option<String>, Option<i64>)>) -> Seq<(Seq<char>, Set<i64>)>
    decreases rows.len(),
{
    if rows.len() == 0 {
        v
    } else {
        let acc = add_rows(v, rows.drop_last());
        match rows.last() {
            (Some(path), Some(pos)) => add_under(acc, path@, set![pos]),
            _ => acc,
        }
    }
}

/// The entries after merging those of one more delete file, in order.
pub open spec fn add_files(v: Seq<(Seq<char>, Set<i64>)>, more: Seq<(Seq<char>, Set<i64>)>) -> Seq<(Seq<char>, Set<i64>)>
    decreases more.len(),
{
    if more.len() == 0 {
        v
    } else {
        add_under(add_files(v, more.drop_last()), more.last().0, more.last().1)
    }
}

/// Where the entry under `key` is, looking from `i` on.
pub open spec fn entry_index(v: Seq<(Seq<char>, Set<i64>)>, key: Seq<char>, i: int) -> Option<int>
    decreases v.len() - i,
{
    if i < 0 || i >= v.len() {
        None
    } else if v[i].0 == key {
        Some(i)
    } else {
        entry_index(v, key, i + 1)
    }
}

proof fn lemma_entry_index(v: Seq<(Seq<char>, Set<i64>)>, key: Seq<char>, i: int)
    requires
        0 <= i,
    ensures
        entry_index(v, key, i) matches Some(j) ==> i <= j < v.len() && v[j].0 == key && forall|k: int|
            i <= k < j ==> v[k].0 != key,
        entry_index(v, key, i) is None ==> forall|k: int| i <= k < v.len() ==> v[k].0 != key,
    decreases v.len() - i,
{
    if i < v.len() && v[i].0 != key {
        lemma_entry_index(v, key, i + 1);
    }
}

proof fn lemma_add_under(v: Seq<(Seq<char>, Set<i64>)>, key: Seq<char>, s: Set<i64>)
    ensures
        add_under(v, key, s) == match entry_index(v, key, 0) {
            Some(j) => v.update(j, (key, v[j].1.union(s))),
            None => v.push((key, s)),
        },
    decreases v.len(),
{
    if v.len() == 0 {
        assert(seq![(key, s)] =~= v.push((key, s)));
    } else if v[0].0 != key {
        let d = v.drop_first();
        lemma_add_under(d, key, s);
        lemma_entry_index_shift(v, key, 1);
        lemma_entry_index(d, key, 0);
        match entry_index(d, key, 0) {
            Some(j) => {
                assert(seq![v[0]] + d.update(j, (key, d[j].1.union(s))) =~= v.update(j + 1, (key, v[j + 1].1.union(s))));
            },
            None => {
                assert(seq![v[0]] + d.push((key, s)) =~= v.push((key, s)));
            },
        }
    }
}

proof fn lemma_entry_index_shift(v: Seq<(Seq<char>, Set<i64>)>, key: Seq<char>, i: int)
    requires
        1 <= i <= v.len(),
        v[0].0 != key,
    ensures
        entry_index(v, key, i) == match entry_index(v.drop_first(), key, i - 1) {
            Some(j) => Some(j + 1),
            None => None,
        },
        entry_index(v, key, 0) == entry_index(v, key, 1),
    decreases v.len() - i,
{
    if i < v.len() && v[i].0 != key {
        lemma_entry_index_shift(v, key, i + 1);
    }
}

/// Adds `positions` under `key`.
fn add_positions_under(result: &mut Vec<(String, PositionDeletes)>, key: &str, positions: &PositionDeletes)
    ensures
        deletes_view(final(result)@) == add_under(deletes_view(old(result)@), key@, positions.deleted_positions@),
{
    let ghost before = deletes_view(result@);
    proof {
        lemma_add_under(before, key@, positions.deleted_positions@);
    }
    let mut i: usize = 0;
    while i < result.len()
        invariant
            i <= result.len(),
            before == deletes_view(result@),
            result@ == old(result)@,
            add_under(before, key@, positions.deleted_positions@) == match entry_index(before, key@, 0) {
                Some(j) => before.update(j, (key@, before[j].1.union(positions.deleted_positions@))),
                None => before.push((key@, positions.deleted_positions@)),
            },
            entry_index(before, key@, 0) == entry_index(before, key@, i as int),
        decreases result.len() - i,
    {
        if str_eq(result[i].0.as_str(), key) {
            assert(entry_index(before, key@, i as int) == Some(i as int));
            let (k, mut d) = result.remove(i);
            d.extend(positions);
            result.insert(i, (k, d));
            assert(deletes_view(result@) =~= before.update(
                i as int,
                (key@, before[i as int].1.union(positions.deleted_positions@)),
            ));
            return;
        }
        i = i + 1;
    }
    proof {
        lemma_entry_index(before, key@, i as int);
    }
    let copy = positions.duplicate();
    result.push((crate::text::owned(key), copy));
    assert(deletes_view(result@) =~= before.push((key@, positions.deleted_positions@)));
}

/// Adds the rows of a position delete file: each row with both a file path and a
/// position marks the position deleted in that file.
pub fn add_delete_rows(result: &mut Vec<(String, PositionDeletes)>, rows: &Vec<(Option<String>, Option<i64>)>)
    ensures
        deletes_view(final(result)@) == add_rows(deletes_view(old(result)@), rows@),
{
    let mut i: usize = 0;
    assert(rows@.take(0) =~= Seq::<(Option<String>, Option<i64>)>::empty());
    while i < rows.len()
        invariant
            i <= rows.len(),
            deletes_view(result@) == add_rows(deletes_view(old(result)@), rows@.take(i as int)),
        decreases rows.len() - i,
    {
        assert(rows@.take(i + 1).drop_last() =~= rows@.take(i as int));
        match &rows[i] {
            (Some(path), Some(pos)) => {
                let mut one = PositionDeletes::new();
                one.add_deleted(*pos);
                assert(one.deleted_positions@ =~= set![*pos]);
                add_positions_under(result, path.as_str(), &one);
            },
            _ => {},
        }
        i = i + 1;
    }
    assert(rows@.take(rows.len() as int) =~= rows@);
}

/// Merges the deletes read from one more file.
pub fn merge_file_deletes(result: &mut Vec<(String, PositionDeletes)>, file_deletes: &Vec<(String, PositionDeletes)>)
    ensures
        deletes_view(final(result)@) == add_files(deletes_view(old(result)@), deletes_view(file_deletes@)),
{
    let ghost more = deletes_view(file_deletes@);
    let mut i: usize = 0;
    assert(more.take(0) =~= Seq::<(Seq<char>, Set<i64>)>::empty());
    while i < file_deletes.len()
        invariant
            i <= file_deletes.len(),
            more == deletes_view(file_deletes@),
            deletes_view(result@) == add_files(deletes_view(old(result)@), more.take(i as int)),
        decreases file_deletes.len() - i,
    {
        assert(more.take(i + 1).drop_last() =~= more.take(i as int));
        add_positions_under(result, file_deletes[i].0.as_str(), &file_deletes[i].1);
        i = i + 1;
    }
    assert(more.take(file_deletes.len() as int) =~= more);
}

fn find_deletes<'a>(all: &'a Vec<(String, PositionDeletes)>, key: &str) -> (r: Option<&'a PositionDeletes>)
    ensures
        match r {
            Some(d) => entry_index(deletes_view(all@), key@, 0) matches Some(j) && d.deleted_positions@ == deletes_view(
                all@,
            )[j].1,
            None => entry_index(deletes_view(all@), key@, 0) is None,
        },
{
    let ghost v = deletes_view(all@);
    let mut i: usize = 0;
    while i < all.len()
        invariant
            i <= all.len(),
            v == deletes_view(all@),
            entry_index(v, key@, 0) == entry_index(v, key@, i as int),
        decreases all.len() - i,
    {
        if str_eq(all[i].0.as_str(), key) {
            return Some(&all[i].1);
        }
        i = i + 1;
    }
    None
}

/// The positions gathered under a key, by where its entry is.
pub open spec fn found_positions(v: Seq<(Seq<char>, Set<i64>)>, key: Seq<char>) -> Option<Set<i64>> {
    match entry_index(v, key, 0) {
        Some(j) => Some(v[j].1),
        None => None,
    }
}

/// The deletes of a data file: those under its normalized path, else those under the
/// path as given, else none.
pub fn deletes_for_path(all: &Vec<(String, PositionDeletes)>, normalized: &str, original: &str) -> (r: PositionDeletes)
    ensures
        r.deleted_positions@ == match found_positions(deletes_view(all@), normalized@) {
            Some(s) => s,
            None => match found_positions(deletes_view(all@), original@) {
                Some(s) => s,
                None => Set::empty(),
            },
        },
{
    match find_deletes(all, normalized) {
        Some(d) => d.duplicate(),
        None => match find_deletes(all, original) {
            Some(d) => d.duplicate(),
            None => PositionDeletes::new(),
        },
    }
}

/// Whether any of the `count` positions from `start` on is deleted.
pub fn has_deletes_in(deletes: &PositionDeletes, start: i64, count: i64) -> (r: bool)
    requires
        i64::MIN <= start + count <= i64::MAX,
    ensures
        r == exists|p: i64| start <= p < start + count && #[trigger] deletes.deleted_positions@.contains(p),
{
    let end = start + count;
    let mut p = start;
    while p < end
        invariant
            start <= p,
            end == start + count,
            forall|q: i64| start <= q < p ==> !#[trigger] deletes.deleted_positions@.contains(q),
        decreases end - p,
    {
        if deletes.is_deleted(p) {
            return true;
        }
        p = p + 1;
    }
    false
}

/// Which of `n` rows from position `start` on are kept: those whose position (the
/// start plus the row's index, wrapping around) is not deleted.
pub fn position_keep_mask(deletes: &PositionDeletes, start: i64, n: usize) -> (r: Vec<bool>)
    ensures
        r@.len() == n,
        forall|k: usize| k < n ==> #[trigger] r@[k as int] == !deletes.deleted_positions@.contains(
            start.wrapping_add(k as i64),
        ),
{
    let mut mask: Vec<bool> = Vec::new();
    let mut i: usize = 0;
    while i < n
        invariant
            i <= n,
            mask@.len() == i,
            forall|k: usize| k < i ==> #[trigger] mask@[k as int] == !deletes.deleted_positions@.contains(
                start.wrapping_add(k as i64),
            ),
        decreases n - i,
    {
        let position = start.wrapping_add(i as i64);
        mask.push(!deletes.is_deleted(position));
        i = i + 1;
    }
    mask
}

/// What becomes of a batch of rows read from a data file.
#[derive(Debug)]
pub enum BatchAction {
    /// No row of the batch is deleted: it passes as it is.
    Keep,
    /// Some rows are deleted: the rows the mask marks are kept.
    Filter(Vec<bool>),
    /// Every row of the batch is deleted: it is dropped.
    Drop,
}

/// Whether the vector holds a `true`.
pub fn any_kept(mask: &Vec<bool>) -> (r: bool)
    ensures
        r == exists|k: int| 0 <= k < mask@.len() && #[trigger] mask@[k],
{
    let mut i: usize = 0;
    while i < mask.len()
        invariant
            i <= mask.len(),
            forall|k: int| 0 <= k < i ==> !#[trigger] mask@[k],
        decreases mask.len() - i,
    {
        if mask[i] {
            return true;
        }
        i = i + 1;
    }
    false
}

/// Whether each of the `n` positions from `start` on is deleted.
pub open spec fn all_deleted_from(d: Set<i64>, start: int, n: int) -> bool {
    forall|k: int| 0 <= k < n ==> #[trigger] d.contains((start + k) as i64)
}

/// Whether one of the `n` positions from `start` on is deleted.
pub open spec fn any_deleted_from(d: Set<i64>, start: int, n: int) -> bool {
    exists|p: i64| start <= p < start + n && #[trigger] d.contains(p)
}

/// The filtering of the batches read from one data file by its position deletes: the
/// position of the next row read, and what to do with each batch.
#[derive(Debug)]
pub struct PositionDeleteFilter {
    deletes: PositionDeletes,
    current_position: i64,
}

impl PositionDeleteFilter {
    /// The deleted positions.
    pub closed spec fn deleted(&self) -> Set<i64> {
        self.deletes.deleted_positions@
    }

    /// The position of the next row read.
    pub closed spec fn position(&self) -> i64 {
        self.current_position
    }

    /// Positions count up from zero.
    pub closed spec fn wf(&self) -> bool {
        self.current_position >= 0
    }

    /// The filtering of a file's batches, from its first row on.
    pub fn new(deletes: PositionDeletes) -> (r: PositionDeleteFilter)
        ensures
            r.wf(),
            r.deleted() == deletes.deleted_positions@,
            r.position() == 0,
    {
        PositionDeleteFilter { deletes, current_position: 0 }
    }

    /// The position of the next row read.
    pub fn current_position(&self) -> (r: i64)
        ensures
            r == self.position(),
    {
        self.current_position
    }

    /// Decides what becomes of the next batch, of `num_rows` rows, and moves past it:
    /// it is kept when none of its positions is deleted, dropped when all are, and
    /// otherwise filtered down to the rows whose positions are not deleted.
    pub fn next_batch(&mut self, num_rows: usize) -> (r: BatchAction)
        requires
            old(self).wf(),
            old(self).position() + num_rows <= i64::MAX,
        ensures
            final(self).wf(),
            final(self).deleted() == old(self).deleted(),
            final(self).position() == old(self).position() + num_rows,
            ({
                let d = old(self).deleted();
                let s = old(self).position() as int;
                let n = num_rows as int;
                &&& !any_deleted_from(d, s, n) ==> r is Keep
                &&& any_deleted_from(d, s, n) && all_deleted_from(d, s, n) ==> r is Drop
                &&& any_deleted_from(d, s, n) && !all_deleted_from(d, s, n) ==> (r matches BatchAction::Filter(m)
                    && m@.len() == n && forall|k: int| 0 <= k < n ==> #[trigger] m@[k] == !d.contains((s + k) as i64))
            }),
    {
        let start = self.current_position;
        let n = num_rows as i64;
        let ghost d = self.deletes.deleted_positions@;
        let action = if !has_deletes_in(&self.deletes, start, n) {
            BatchAction::Keep
        } else {
            let mask = position_keep_mask(&self.deletes, start, num_rows);
            assert forall|k: int| 0 <= k < num_rows implies #[trigger] mask@[k] == !d.contains((start + k) as i64) by {
                assert(mask@[(k as usize) as int] == !d.contains(start.wrapping_add((k as usize) as i64)));
            }
            if any_kept(&mask) {
                BatchAction::Filter(mask)
            } else {
                assert forall|k: int| 0 <= k < num_rows implies #[trigger] d.contains((start + k) as i64) by {
                    assert(!mask@[k]);
                }
                BatchAction::Drop
            }
        };
        self.current_position = start + n;
        action
    }
}

} // verus!
