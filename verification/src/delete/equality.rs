//! Equality deletes, kept in order of the sequence number they apply up to, and the
//! statistics test that rules a delete file out for a data file.
use vstd::prelude::*;
use std::collections::HashMap;
use crate::manifest::content_file::{ContentFile, ContentFileView, DeleteFile, bound_bytes, lemma_delete_file_record};
use crate::expr::datum::{bytes_lex, bytes_compare};
use super::position::{sorted, find_start_index, is_start_of, delete_views};

verus! {

broadcast use {lemma_delete_file_record, vstd::std_specs::hash::group_hash_axioms};

/// The sequence number an equality delete applies up to: one below its data sequence
/// number (0 when it has none), not going below the least `i64`.
pub open spec fn apply_seq(f: ContentFileView) -> i64 {
    let s = match f.data_sequence_number {
        Some(s) => s,
        None => 0,
    };
    if s == i64::MIN {
        s
    } else {
        (s - 1) as i64
    }
}

/// The statistics of a data file that the equality test reads.
pub struct DataFileStatsView {
    pub lower_bounds: Option<Map<i32, Seq<u8>>>,
    pub upper_bounds: Option<Map<i32, Seq<u8>>>,
    pub null_value_counts: Option<Map<i32, i64>>,
    pub value_counts: Option<Map<i32, i64>>,
}

/// Whether the null counts leave open that the column has nulls: unknown counts, an
/// unknown column, or a positive count.
pub open spec fn may_have_nulls(counts: Option<Map<i32, i64>>, id: i32) -> bool {
    match counts {
        Some(m) => !m.contains_key(id) || m[id] > 0,
        None => true,
    }
}

/// Whether the counts show that every value of the column is null.
pub open spec fn all_null_spec(nulls: Option<Map<i32, i64>>, values: Option<Map<i32, i64>>, id: i32) -> bool {
    match (nulls, values) {
        (Some(n), Some(v)) => n.contains_key(id) && v.contains_key(id) && n[id] == v[id] && n[id] > 0,
        _ => false,
    }
}

/// Whether the counts show that no value of the column is null.
pub open spec fn no_nulls(nulls: Option<Map<i32, i64>>, id: i32) -> bool {
    match nulls {
        Some(n) => n.contains_key(id) && n[id] == 0,
        None => false,
    }
}

/// Whether the byte ranges `[dl, du]` and `[el, eu]` overlap, bytes compared
/// lexicographically.
pub open spec fn overlap(dl: Seq<u8>, du: Seq<u8>, el: Seq<u8>, eu: Seq<u8>) -> bool {
    !(bytes_lex(dl, eu) > 0) && !(bytes_lex(el, du) > 0)
}

/// The map, or an empty one.
pub open spec fn or_empty<V>(m: Option<Map<i32, V>>) -> Map<i32, V> {
    match m {
        Some(m) => m,
        None => Map::empty(),
    }
}

/// Whether the statistics of column `id` show that the delete file cannot match any
/// row of the data file: nulls only on one side and none on the other, or disjoint
/// value ranges.
pub open spec fn column_rules_out(data: DataFileStatsView, del: ContentFileView, id: i32) -> bool {
    let dl = or_empty(data.lower_bounds);
    let du = or_empty(data.upper_bounds);
    let el = or_empty(del.lower_bounds);
    let eu = or_empty(del.upper_bounds);
    if may_have_nulls(data.null_value_counts, id) && may_have_nulls(del.null_value_counts, id) {
        false
    } else if all_null_spec(data.null_value_counts, data.value_counts, id) && no_nulls(del.null_value_counts, id) {
        true
    } else if all_null_spec(del.null_value_counts, del.value_counts, id) && no_nulls(data.null_value_counts, id) {
        true
    } else if dl.contains_key(id) && du.contains_key(id) && el.contains_key(id) && eu.contains_key(id) {
        !overlap(dl[id], du[id], el[id], eu[id])
    } else {
        false
    }
}

/// Whether an equality delete file may hold deletes for a data file: it does unless
/// both have bounds and one of its equality columns rules it out.
pub open spec fn may_contain_deletes(data: DataFileStatsView, del: ContentFileView) -> bool {
    let has_bounds = !or_empty(del.lower_bounds).is_empty() && !or_empty(del.upper_bounds).is_empty();
    if !has_bounds || data.lower_bounds is None || data.upper_bounds is None {
        true
    } else {
        !exists|i: int| 0 <= i < eq_ids(del).len() && column_rules_out(data, del, #[trigger] eq_ids(del)[i])
    }
}

/// The equality field ids of a delete file, none when it lists none.
pub open spec fn eq_ids(del: ContentFileView) -> Seq<i32> {
    match del.equality_field_ids {
        Some(ids) => ids,
        None => Seq::empty(),
    }
}

/// Whether the ranges `[data_lower, data_upper]` and `[delete_lower, delete_upper]`
/// overlap, bytes compared lexicographically.
pub fn ranges_overlap(data_lower: &[u8], data_upper: &[u8], delete_lower: &[u8], delete_upper: &[u8]) -> (r: bool)
    ensures
        r == overlap(data_lower@, data_upper@, delete_lower@, delete_upper@),
{
    if bytes_compare(data_lower, delete_upper) > 0 {
        return false;
    }
    if bytes_compare(delete_lower, data_upper) > 0 {
        return false;
    }
    true
}

fn copy_ids(ids: &[i32]) -> (r: Vec<i32>)
    ensures
        r@ == ids@,
{
    let mut r: Vec<i32> = Vec::new();
    let mut i: usize = 0;
    while i < ids.len()
        invariant
            i <= ids.len(),
            r@ == ids@.take(i as int),
        decreases ids.len() - i,
    {
        r.push(ids[i]);
        i = i + 1;
        assert(ids@.take(i as int) =~= ids@.take(i - 1).push(ids@[i - 1]));
    }
    assert(ids@.take(ids.len() as int) =~= ids@);
    r
}

/// An equality delete file with what the test reads of it at hand.
#[derive(Debug)]
pub struct EqualityDeleteFile {
    file: DeleteFile,
    apply_sequence_number: i64,
    equality_field_ids: Vec<i32>,
    lower_bounds: HashMap<i32, Vec<u8>>,
    upper_bounds: HashMap<i32, Vec<u8>>,
}

impl View for EqualityDeleteFile {
    type V = ContentFileView;

    closed spec fn view(&self) -> ContentFileView {
        self.file@
    }
}

impl EqualityDeleteFile {
    /// The cached values are those of the file.
    #[verifier::type_invariant]
    spec fn wf(&self) -> bool {
        &&& self.apply_sequence_number == apply_seq(self@)
        &&& self.equality_field_ids@ == match self@.equality_field_ids {
            Some(ids) => ids,
            None => Seq::empty(),
        }
        &&& bound_bytes(self.lower_bounds@) == or_empty(self@.lower_bounds)
        &&& bound_bytes(self.upper_bounds@) == or_empty(self@.upper_bounds)
    }

    /// Wraps a delete file.
    pub fn new(file: DeleteFile) -> (r: EqualityDeleteFile)
        ensures
            r@ == file@,
    {
        let s = match file.data_sequence_number() {
            Some(s) => s,
            None => 0,
        };
        let apply_sequence_number = if s == i64::MIN { s } else { s - 1 };
        let equality_field_ids = match file.equality_field_ids() {
            Some(ids) => copy_ids(ids),
            None => Vec::new(),
        };
        let lower_bounds = match file.lower_bounds() {
            Some(m) => m.clone(),
            None => HashMap::new(),
        };
        let upper_bounds = match file.upper_bounds() {
            Some(m) => m.clone(),
            None => HashMap::new(),
        };
        proof {
            assert(bound_bytes(Map::<i32, Vec<u8>>::empty()) =~= Map::<i32, Seq<u8>>::empty());
        }
        EqualityDeleteFile { file, apply_sequence_number, equality_field_ids, lower_bounds, upper_bounds }
    }

    /// The wrapped file.
    pub fn file(&self) -> (r: &DeleteFile)
        ensures
            r@ == self@,
    {
        &self.file
    }

    /// The sequence number this delete applies up to.
    pub fn apply_sequence_number(&self) -> (r: i64)
        ensures
            r == apply_seq(self@),
    {
        proof {
            use_type_invariant(self);
        }
        self.apply_sequence_number
    }

    /// The equality field ids.
    pub fn equality_field_ids(&self) -> (r: &[i32])
        ensures
            r@ == match self@.equality_field_ids {
                Some(ids) => ids,
                None => Seq::empty(),
            },
    {
        proof {
            use_type_invariant(self);
        }
        self.equality_field_ids.as_slice()
    }

    /// Whether the file has both lower and upper bounds.
    pub fn has_bounds(&self) -> (r: bool)
        ensures
            r == (!or_empty(self@.lower_bounds).is_empty() && !or_empty(self@.upper_bounds).is_empty()),
    {
        proof {
            use_type_invariant(self);
        }
        proof {
            assert(self.lower_bounds@.is_empty() == bound_bytes(self.lower_bounds@).is_empty()) by {
                assert(self.lower_bounds@.dom() =~= bound_bytes(self.lower_bounds@).dom());
            }
            assert(self.upper_bounds@.is_empty() == bound_bytes(self.upper_bounds@).is_empty()) by {
                assert(self.upper_bounds@.dom() =~= bound_bytes(self.upper_bounds@).dom());
            }
        }
        !self.lower_bounds.is_empty() && !self.upper_bounds.is_empty()
    }

    /// The lower bound of a column.
    pub fn lower_bound(&self, field_id: i32) -> (r: Option<&[u8]>)
        ensures
            match r {
                Some(b) => or_empty(self@.lower_bounds).contains_key(field_id) && or_empty(self@.lower_bounds)[field_id] == b@,
                None => !or_empty(self@.lower_bounds).contains_key(field_id),
            },
    {
        proof {
            use_type_invariant(self);
        }
        match self.lower_bounds.get(&field_id) {
            Some(v) => Some(v.as_slice()),
            None => None,
        }
    }

    /// The upper bound of a column.
    pub fn upper_bound(&self, field_id: i32) -> (r: Option<&[u8]>)
        ensures
            match r {
                Some(b) => or_empty(self@.upper_bounds).contains_key(field_id) && or_empty(self@.upper_bounds)[field_id] == b@,
                None => !or_empty(self@.upper_bounds).contains_key(field_id),
            },
    {
        proof {
            use_type_invariant(self);
        }
        match self.upper_bounds.get(&field_id) {
            Some(v) => Some(v.as_slice()),
            None => None,
        }
    }

    /// The null counts of the file.
    pub fn null_value_counts(&self) -> (r: Option<HashMap<i32, i64>>)
        ensures
            match r {
                Some(m) => self@.null_value_counts == Some(m@),
                None => self@.null_value_counts is None,
            },
    {
        match self.file.null_value_counts() {
            Some(m) => Some(m.clone()),
            None => None,
        }
    }

    /// The value counts of the file.
    pub fn value_counts(&self) -> (r: Option<HashMap<i32, i64>>)
        ensures
            match r {
                Some(m) => self@.value_counts == Some(m@),
                None => self@.value_counts is None,
            },
    {
        match self.file.value_counts() {
            Some(m) => Some(m.clone()),
            None => None,
        }
    }

    /// A copy.
    pub fn duplicate(&self) -> (r: EqualityDeleteFile)
        ensures
            r@ == self@,
    {
        proof {
            use_type_invariant(self);
        }
        EqualityDeleteFile::new(self.file.duplicate())
    }
}

/// The statistics of a data file that the equality test reads.
#[derive(Debug)]
pub struct DataFileStats {
    /// Lower bounds by field ID
    pub lower_bounds: Option<HashMap<i32, Vec<u8>>>,
    /// Upper bounds by field ID
    pub upper_bounds: Option<HashMap<i32, Vec<u8>>>,
    /// Null value counts by field ID
    pub null_value_counts: Option<HashMap<i32, i64>>,
    /// Value counts by field ID
    pub value_counts: Option<HashMap<i32, i64>>,
}

impl View for DataFileStats {
    type V = DataFileStatsView;

    open spec fn view(&self) -> DataFileStatsView {
        DataFileStatsView {
            lower_bounds: match self.lower_bounds { Some(m) => Some(bound_bytes(m@)), None => None },
            upper_bounds: match self.upper_bounds { Some(m) => Some(bound_bytes(m@)), None => None },
            null_value_counts: match self.null_value_counts { Some(m) => Some(m@), None => None },
            value_counts: match self.value_counts { Some(m) => Some(m@), None => None },
        }
    }
}

impl DataFileStats {
    /// No statistics.
    pub fn new() -> (r: DataFileStats)
        ensures
            r.lower_bounds is None,
            r.upper_bounds is None,
            r.null_value_counts is None,
            r.value_counts is None,
    {
        DataFileStats { lower_bounds: None, upper_bounds: None, null_value_counts: None, value_counts: None }
    }

    /// These statistics with the given lower bounds.
    pub fn with_lower_bounds(self, bounds: HashMap<i32, Vec<u8>>) -> (r: DataFileStats)
        ensures
            r@ == (DataFileStatsView { lower_bounds: Some(bound_bytes(bounds@)), ..self@ }),
    {
        let mut s = self;
        s.lower_bounds = Some(bounds);
        s
    }

    /// These statistics with the given upper bounds.
    pub fn with_upper_bounds(self, bounds: HashMap<i32, Vec<u8>>) -> (r: DataFileStats)
        ensures
            r@ == (DataFileStatsView { upper_bounds: Some(bound_bytes(bounds@)), ..self@ }),
    {
        let mut s = self;
        s.upper_bounds = Some(bounds);
        s
    }

    /// These statistics with the given null counts.
    pub fn with_null_value_counts(self, counts: HashMap<i32, i64>) -> (r: DataFileStats)
        ensures
            r@ == (DataFileStatsView { null_value_counts: Some(counts@), ..self@ }),
    {
        let mut s = self;
        s.null_value_counts = Some(counts);
        s
    }

    /// These statistics with the given value counts.
    pub fn with_value_counts(self, counts: HashMap<i32, i64>) -> (r: DataFileStats)
        ensures
            r@ == (DataFileStatsView { value_counts: Some(counts@), ..self@ }),
    {
        let mut s = self;
        s.value_counts = Some(counts);
        s
    }
}

fn contains_null(null_counts: &Option<HashMap<i32, i64>>, field_id: i32) -> (r: bool)
    ensures
        r == may_have_nulls(match null_counts { Some(m) => Some(m@), None => None }, field_id),
{
    match null_counts {
        Some(counts) => match counts.get(&field_id) {
            Some(c) => *c > 0,
            None => true,
        },
        None => true,
    }
}

fn all_null(null_counts: &Option<HashMap<i32, i64>>, value_counts: &Option<HashMap<i32, i64>>, field_id: i32) -> (r: bool)
    ensures
        r == all_null_spec(
            match null_counts { Some(m) => Some(m@), None => None },
            match value_counts { Some(m) => Some(m@), None => None },
            field_id,
        ),
{
    match (null_counts, value_counts) {
        (Some(nc), Some(vc)) => match (nc.get(&field_id), vc.get(&field_id)) {
            (Some(n), Some(v)) => *n == *v && *n > 0,
            _ => false,
        },
        _ => false,
    }
}

fn all_non_null(null_counts: &Option<HashMap<i32, i64>>, field_id: i32) -> (r: bool)
    ensures
        r == no_nulls(match null_counts { Some(m) => Some(m@), None => None }, field_id),
{
    match null_counts {
        Some(counts) => match counts.get(&field_id) {
            Some(c) => *c == 0,
            None => false,
        },
        None => false,
    }
}

/// Whether `delete_file` may hold deletes for the data file with the given statistics.
pub fn can_contain_eq_deletes_for_file(data_file: &DataFileStats, delete_file: &EqualityDeleteFile) -> (r: bool)
    ensures
        r == may_contain_deletes(data_file@, delete_file@),
{
    if !delete_file.has_bounds() {
        return true;
    }
    let data_lowers = match &data_file.lower_bounds {
        Some(l) => l,
        None => return true,
    };
    let data_uppers = match &data_file.upper_bounds {
        Some(u) => u,
        None => return true,
    };
    let delete_null_counts = delete_file.null_value_counts();
    let delete_value_counts = delete_file.value_counts();
    let ids = delete_file.equality_field_ids();
    let ghost data = data_file@;
    let ghost del = delete_file@;
    let mut i: usize = 0;
    while i < ids.len()
        invariant
            i <= ids.len(),
            data == data_file@,
            del == delete_file@,
            data_file.lower_bounds == Some(*data_lowers),
            data_file.upper_bounds == Some(*data_uppers),
            match delete_null_counts { Some(m) => del.null_value_counts == Some(m@), None => del.null_value_counts is None },
            match delete_value_counts { Some(m) => del.value_counts == Some(m@), None => del.value_counts is None },
            ids@ == eq_ids(del),
            forall|j: int| 0 <= j < i ==> !column_rules_out(data, del, #[trigger] eq_ids(del)[j]),
            !or_empty(del.lower_bounds).is_empty() && !or_empty(del.upper_bounds).is_empty(),
            data.lower_bounds is Some && data.upper_bounds is Some,
        decreases ids.len() - i,
    {
        let field_id = ids[i];
        let data_has_nulls = contains_null(&data_file.null_value_counts, field_id);
        let delete_has_nulls = contains_null(&delete_null_counts, field_id);
        if !(data_has_nulls && delete_has_nulls) {
            if all_null(&data_file.null_value_counts, &data_file.value_counts, field_id)
                && all_non_null(&delete_null_counts, field_id) {
                assert(column_rules_out(data, del, ids@[i as int]));
                assert(column_rules_out(data, del, eq_ids(del)[i as int]));
                return false;
            }
            if all_null(&delete_null_counts, &delete_value_counts, field_id)
                && all_non_null(&data_file.null_value_counts, field_id) {
                return false;
            }
            let data_lower = data_lowers.get(&field_id);
            let data_upper = data_uppers.get(&field_id);
            let delete_lower = delete_file.lower_bound(field_id);
            let delete_upper = delete_file.upper_bound(field_id);
            match (data_lower, data_upper, delete_lower, delete_upper) {
                (Some(dl), Some(du), Some(el), Some(eu)) => {
                    if !ranges_overlap(dl.as_slice(), du.as_slice(), el, eu) {
                        assert(column_rules_out(data, del, ids@[i as int]));
                        assert(column_rules_out(data, del, eq_ids(del)[i as int]));
                        return false;
                    }
                },
                _ => {},
            }
        }
        i = i + 1;
    }
    true
}

/// The apply sequence numbers of a list of files.
pub open spec fn apply_seqs_of(fs: Seq<ContentFileView>) -> Seq<i64> {
    Seq::new(fs.len(), |i: int| apply_seq(fs[i]))
}

/// The views of a list of wrapped equality delete files.
pub open spec fn eq_views(fs: Seq<EqualityDeleteFile>) -> Seq<ContentFileView> {
    Seq::new(fs.len(), |i: int| fs[i]@)
}

/// The number of leading files of `s` whose apply sequence number is at most `x`.
pub open spec fn leading_applying_at_most(s: Seq<ContentFileView>, x: i64) -> nat
    decreases s.len(),
{
    if s.len() == 0 {
        0
    } else if apply_seq(s[0]) <= x {
        1 + leading_applying_at_most(s.drop_first(), x)
    } else {
        0
    }
}

/// `f` placed after the leading files of `s` whose apply sequence number is not above
/// its own.
pub open spec fn insert_by_apply_seq(s: Seq<ContentFileView>, f: ContentFileView) -> Seq<ContentFileView> {
    let k = leading_applying_at_most(s, apply_seq(f)) as int;
    s.take(k).push(f) + s.skip(k)
}

proof fn lemma_leading_applying_at_most(s: Seq<ContentFileView>, x: i64, k: int)
    requires
        0 <= k <= s.len(),
        forall|i: int| 0 <= i < k ==> apply_seq(#[trigger] s[i]) <= x,
        forall|i: int| k <= i < s.len() ==> apply_seq(#[trigger] s[i]) > x,
    ensures
        leading_applying_at_most(s, x) == k,
    decreases s.len(),
{
    if s.len() > 0 {
        if k > 0 {
            assert(apply_seq(s[0]) <= x);
            let d = s.drop_first();
            assert forall|i: int| 0 <= i < k - 1 implies apply_seq(#[trigger] d[i]) <= x by {
                assert(d[i] == s[i + 1]);
            }
            assert forall|i: int| k - 1 <= i < d.len() implies apply_seq(#[trigger] d[i]) > x by {
                assert(d[i] == s[i + 1]);
            }
            lemma_leading_applying_at_most(d, x, k - 1);
        } else {
            assert(apply_seq(s[0]) > x);
        }
    }
}

/// Equality delete files in order of the sequence number they apply up to, files
/// with equal numbers in the order they were added.
#[derive(Debug)]
pub struct EqualityDeletes {
    seqs: Vec<i64>,
    files: Vec<EqualityDeleteFile>,
}

impl View for EqualityDeletes {
    type V = Seq<ContentFileView>;

    closed spec fn view(&self) -> Seq<ContentFileView> {
        eq_views(self.files@)
    }
}

/// Dropping the files below `q` from a list ordered by apply sequence number leaves
/// exactly those that apply to sequence number `q`.
pub proof fn lemma_skip_is_apply_filter(s: Seq<ContentFileView>, k: int, q: i64)
    requires
        is_start_of(apply_seqs_of(s), q, k),
    ensures
        s.skip(k) == s.filter(|f: ContentFileView| apply_seq(f) >= q),
    decreases s.len(),
{
    reveal(Seq::filter);
    if s.len() == 0 {
        assert(s.skip(k) =~= s);
    } else {
        let d = s.drop_last();
        assert(apply_seqs_of(d) =~= apply_seqs_of(s).drop_last());
        if k == s.len() {
            assert(apply_seq(s.last()) < q) by {
                assert(apply_seqs_of(s)[s.len() - 1] < q);
            }
            lemma_skip_is_apply_filter(d, k - 1, q);
            assert(d.skip(k - 1) =~= Seq::<ContentFileView>::empty());
            assert(s.skip(k) =~= Seq::<ContentFileView>::empty());
        } else {
            assert(apply_seq(s.last()) >= q) by {
                assert(apply_seqs_of(s)[s.len() - 1] >= q);
            }
            lemma_skip_is_apply_filter(d, k, q);
            assert(s.skip(k) =~= d.skip(k).push(s.last()));
        }
    }
}

/// Filtering one element more of a sequence adds it when it passes.
proof fn lemma_filter_take_step(s: Seq<ContentFileView>, p: spec_fn(ContentFileView) -> bool, n: int)
    requires
        0 <= n < s.len(),
    ensures
        s.take(n + 1).filter(p) == if p(s[n]) {
            s.take(n).filter(p).push(s[n])
        } else {
            s.take(n).filter(p)
        },
{
    reveal(Seq::filter);
    assert(s.take(n + 1).drop_last() =~= s.take(n));
    assert(s.take(n + 1).last() == s[n]);
}

impl EqualityDeletes {
    /// Every file is wrapped as it should be, and the sequence numbers are their
    /// apply sequence numbers in ascending order.
    #[verifier::type_invariant]
    spec fn wf(&self) -> bool {
        &&& self.seqs@ == apply_seqs_of(self@)
        &&& sorted(self.seqs@)
    }

    /// No files.
    pub fn new() -> (r: EqualityDeletes)
        ensures
            r@ == Seq::<ContentFileView>::empty(),
    {
        let ghost v = eq_views(Seq::<EqualityDeleteFile>::empty());
        assert(v =~= Seq::<ContentFileView>::empty());
        assert(Seq::<i64>::empty() =~= apply_seqs_of(v));
        EqualityDeletes { seqs: Vec::new(), files: Vec::new() }
    }

    /// Adds a file after those whose apply sequence number is not above its own.
    pub fn add(&mut self, file: DeleteFile)
        ensures
            final(self)@ == insert_by_apply_seq(old(self)@, file@),
    {
        proof {
            use_type_invariant(&*self);
        }
        let entry = EqualityDeleteFile::new(file);
        let key = entry.apply_sequence_number();
        let mut k = self.seqs.len();
        while k > 0 && self.seqs[k - 1] > key
            invariant
                k <= self.seqs.len(),
                self.seqs@ == apply_seqs_of(self@),
                sorted(self.seqs@),
                forall|i: int| k <= i < self.seqs.len() ==> self.seqs@[i] > key,
            decreases k,
        {
            k = k - 1;
        }
        let ghost old_view = self@;
        let ghost old_seqs = self.seqs@;
        proof {
            assert forall|i: int| 0 <= i < k implies old_seqs[i] <= key by {
                assert(old_seqs[i] <= old_seqs[k - 1]);
            }
        }
        let mut taken = EqualityDeletes::new();
        std::mem::swap(self, &mut taken);
        let EqualityDeletes { mut seqs, mut files } = taken;
        seqs.insert(k, key);
        files.insert(k, entry);
        proof {
            assert(eq_views(files@) =~= old_view.take(k as int).push(file@) + old_view.skip(k as int));
            assert(seqs@ =~= apply_seqs_of(eq_views(files@)));
            assert(forall|i: int| 0 <= i < k ==> apply_seq(#[trigger] old_view[i]) <= apply_seq(file@)) by {
                assert forall|i: int| 0 <= i < k implies apply_seq(#[trigger] old_view[i]) <= apply_seq(file@) by {
                    assert(old_seqs[i] == apply_seq(old_view[i]));
                }
            }
            assert(forall|i: int| k <= i < old_view.len() ==> apply_seq(#[trigger] old_view[i]) > apply_seq(file@)) by {
                assert forall|i: int| k <= i < old_view.len() implies apply_seq(#[trigger] old_view[i]) > apply_seq(file@) by {
                    assert(old_seqs[i] == apply_seq(old_view[i]));
                }
            }
            lemma_leading_applying_at_most(old_view, apply_seq(file@), k as int);
            assert forall|i: int, j: int| 0 <= i <= j < seqs@.len() implies seqs@[i] <= seqs@[j] by {
                if j < k {
                } else if j == k {
                    if i < k {
                        assert(old_seqs[i] <= key);
                    }
                } else {
                    if i < k {
                        assert(old_seqs[i] <= key && key < old_seqs[j - 1]);
                    } else if i == k {
                        assert(old_seqs[j - 1] > key);
                    } else {
                        assert(old_seqs[i - 1] <= old_seqs[j - 1]);
                    }
                }
            }
        }
        *self = EqualityDeletes { seqs, files };
    }

    /// The files that apply to a data file with sequence number `seq` and the given
    /// statistics: those applying up to `seq` or later that the statistics do not rule
    /// out, in order.
    pub fn filter(&self, seq: i64, data_file: &DataFileStats) -> (r: Vec<DeleteFile>)
        ensures
            delete_views(r@) == self@.filter(|f: ContentFileView| apply_seq(f) >= seq).filter(
                |f: ContentFileView| may_contain_deletes(data_file@, f),
            ),
    {
        proof {
            use_type_invariant(self);
        }
        let start = find_start_index(self.seqs.as_slice(), seq);
        let ghost p = |f: ContentFileView| may_contain_deletes(data_file@, f);
        proof {
            lemma_skip_is_apply_filter(self@, start as int, seq);
        }
        let ghost tail = self@.skip(start as int);
        let mut matching: Vec<DeleteFile> = Vec::new();
        let mut i = start;
        proof {
            reveal(Seq::filter);
            assert(tail.take(0) =~= Seq::<ContentFileView>::empty());
        }
        while i < self.files.len()
            invariant
                start <= i <= self.files.len(),
                tail == self@.skip(start as int),
                p == (|f: ContentFileView| may_contain_deletes(data_file@, f)),
                delete_views(matching@) == tail.take(i - start).filter(p),
            decreases self.files.len() - i,
        {
            let ghost before = delete_views(matching@);
            proof {
                lemma_filter_take_step(tail, p, i - start);
                assert(tail[i - start] == self.files@[i as int]@);
            }
            if can_contain_eq_deletes_for_file(data_file, &self.files[i]) {
                matching.push(self.files[i].file().duplicate());
                assert(delete_views(matching@) =~= before.push(self.files@[i as int]@));
            }
            i = i + 1;
        }
        assert(tail.take(self.files.len() - start) =~= tail);
        matching
    }

    /// The files that apply to a data file with sequence number `seq`, in order.
    pub fn filter_all(&self, seq: i64) -> (r: Vec<DeleteFile>)
        ensures
            delete_views(r@) == self@.filter(|f: ContentFileView| apply_seq(f) >= seq),
    {
        proof {
            use_type_invariant(self);
        }
        let start = find_start_index(self.seqs.as_slice(), seq);
        proof {
            lemma_skip_is_apply_filter(self@, start as int, seq);
        }
        self.files_from(start)
    }

    fn files_from(&self, start: usize) -> (r: Vec<DeleteFile>)
        requires
            start <= self.files.len(),
        ensures
            delete_views(r@) == self@.skip(start as int),
    {
        let mut r: Vec<DeleteFile> = Vec::new();
        let mut i = start;
        while i < self.files.len()
            invariant
                start <= i <= self.files.len(),
                delete_views(r@) == self@.subrange(start as int, i as int),
            decreases self.files.len() - i,
        {
            let ghost before = delete_views(r@);
            r.push(self.files[i].file().duplicate());
            assert(delete_views(r@) =~= before.push(self@[i as int]));
            i = i + 1;
            assert(self@.subrange(start as int, i as int) =~= self@.subrange(start as int, i - 1).push(self@[i - 1]));
        }
        assert(self@.subrange(start as int, self.files.len() as int) =~= self@.skip(start as int));
        r
    }

    /// All the files, in order.
    pub fn referenced_delete_files(&self) -> (r: Vec<DeleteFile>)
        ensures
            delete_views(r@) == self@,
    {
        let r = self.files_from(0);
        assert(self@.skip(0) =~= self@);
        r
    }

    /// Whether there are no files.
    pub fn is_empty(&self) -> (r: bool)
        ensures
            r == (self@.len() == 0),
    {
        self.files.len() == 0
    }

    /// The number of files.
    pub fn len(&self) -> (r: usize)
        ensures
            r == self@.len(),
    {
        self.files.len()
    }
}

} // verus!
