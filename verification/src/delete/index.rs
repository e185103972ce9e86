//! The delete file index: delete files grouped by partition, by referenced path and
//! as deletion vectors, and the lookup of those that apply to a data file.
use vstd::prelude::*;
use std::hash::{Hash, Hasher};
use crate::manifest::content_file::{ContentFile, ContentFileView, DataFile, DeleteFile,
    lemma_delete_file_record, lemma_data_file_record, bound_bytes};
use crate::types::{FileContent, PartitionData, PartitionValueView};
use crate::text::{str_eq, copy_string};
use super::position::{PositionDeletes, file_seq, insert_by_seq, delete_views};
use super::equality::{EqualityDeletes, DataFileStats, DataFileStatsView, apply_seq, may_contain_deletes,
    insert_by_apply_seq};

verus! {

broadcast use {lemma_delete_file_record, lemma_data_file_record, vstd::std_specs::hash::group_hash_axioms};

/// What `rustc_hash::FxHasher` (seed 0) finishes with after a partition tuple with
/// these values has been fed to it through its `Hash` implementation.
pub uninterp spec fn fx_partition_hash(p: Seq<PartitionValueView>) -> u64;

/// Feeds the partition tuple to a fresh `rustc_hash::FxHasher` and returns
/// `Hasher::finish`; the result is named `fx_partition_hash`, a function of the
/// values of the tuple (the hash function itself is not restated here).
#[verifier::external_body]
fn hash_partition(partition: &PartitionData) -> (r: u64)
    ensures
        r == fx_partition_hash(partition@),
{
    let mut hasher = rustc_hash::FxHasher::default();
    partition.hash(&mut hasher);
    hasher.finish()
}

/// The key delete files are grouped under: the partition spec and the hash of the
/// partition tuple.
#[derive(Debug, Clone, Copy, Hash, PartialEq, Eq, Structural)]
pub struct PartitionKey {
    /// Partition spec ID
    pub spec_id: i32,
    /// Hash of the partition tuple
    pub partition_hash: u64,
}

/// The key of a file.
pub open spec fn key_of(spec_id: i32, partition: Seq<PartitionValueView>) -> PartitionKey {
    PartitionKey { spec_id, partition_hash: fx_partition_hash(partition) }
}

impl PartitionKey {
    /// The key of a partition tuple of the given spec.
    pub fn new(spec_id: i32, partition: &PartitionData) -> (r: PartitionKey)
        ensures
            r == key_of(spec_id, partition@),
    {
        PartitionKey { spec_id, partition_hash: hash_partition(partition) }
    }
}

/// The index of the first pair of `groups` under key `k`, looking from `i` on.
pub open spec fn find_key<K, V>(groups: Seq<(K, V)>, k: K, i: nat) -> Option<int>
    decreases groups.len() - i,
{
    if i >= groups.len() {
        None
    } else if groups[i as int].0 == k {
        Some(i as int)
    } else {
        find_key(groups, k, i + 1)
    }
}

proof fn lemma_find_key<K, V>(groups: Seq<(K, V)>, k: K, i: nat)
    ensures
        find_key(groups, k, i) matches Some(j) ==> i <= j < groups.len() && groups[j].0 == k
            && forall|m: int| i <= m < j ==> groups[m].0 != k,
        find_key(groups, k, i) is None ==> forall|m: int| i <= m < groups.len() ==> groups[m].0 != k,
    decreases groups.len() - i,
{
    if i < groups.len() && groups[i as int].0 != k {
        lemma_find_key(groups, k, i + 1);
    }
}

/// Adds `f` to the position delete group under `k`, making the group if there is none.
pub open spec fn add_position(groups: Seq<(PartitionKey, Seq<ContentFileView>)>, k: PartitionKey, f: ContentFileView) -> Seq<(PartitionKey, Seq<ContentFileView>)> {
    match find_key(groups, k, 0) {
        Some(i) => groups.update(i, (k, insert_by_seq(groups[i].1, f))),
        None => groups.push((k, seq![f])),
    }
}

/// Adds `f` to the equality delete group under `k`, making the group if there is none.
pub open spec fn add_equality(groups: Seq<(PartitionKey, Seq<ContentFileView>)>, k: PartitionKey, f: ContentFileView) -> Seq<(PartitionKey, Seq<ContentFileView>)> {
    match find_key(groups, k, 0) {
        Some(i) => groups.update(i, (k, insert_by_apply_seq(groups[i].1, f))),
        None => groups.push((k, seq![f])),
    }
}

/// Makes `f` the deletion vector for `path`, in place of any earlier one.
pub open spec fn set_vector(dvs: Seq<(Seq<char>, ContentFileView)>, path: Seq<char>, f: ContentFileView) -> Seq<(Seq<char>, ContentFileView)> {
    match find_key(dvs, path, 0) {
        Some(i) => dvs.update(i, (path, f)),
        None => dvs.push((path, f)),
    }
}

/// What the index holds.
pub struct IndexView {
    pub global_eq: Option<Seq<ContentFileView>>,
    pub eq_by_partition: Seq<(PartitionKey, Seq<ContentFileView>)>,
    pub pos_by_partition: Seq<(PartitionKey, Seq<ContentFileView>)>,
    pub pos_by_path: Seq<(Seq<char>, Seq<ContentFileView>)>,
    pub dv_by_path: Seq<(Seq<char>, ContentFileView)>,
    pub has_eq: bool,
    pub has_pos: bool,
    pub file_count: nat,
}

/// The index with nothing in it.
pub open spec fn empty_index() -> IndexView {
    IndexView {
        global_eq: None,
        eq_by_partition: Seq::empty(),
        pos_by_partition: Seq::empty(),
        pos_by_path: Seq::empty(),
        dv_by_path: Seq::empty(),
        has_eq: false,
        has_pos: false,
        file_count: 0,
    }
}

/// The index after one more delete file: files at or below the minimum sequence
/// number are left out; a position delete that names its data file is that file's
/// deletion vector, any other goes to its partition's group; an equality delete of an
/// empty partition tuple or of the unpartitioned spec is global, any other goes to its
/// partition's group.
pub open spec fn index_step(ix: IndexView, f: ContentFileView, min_seq: i64, unpartitioned: Option<i32>) -> IndexView {
    if file_seq(f) <= min_seq {
        ix
    } else {
        let ix = IndexView { file_count: ix.file_count + 1, ..ix };
        match f.content {
            FileContent::PositionDeletes => match f.referenced_data_file {
                Some(p) => IndexView { has_pos: true, dv_by_path: set_vector(ix.dv_by_path, p, f), ..ix },
                None => IndexView {
                    has_pos: true,
                    pos_by_partition: add_position(ix.pos_by_partition, key_of(f.spec_id, f.partition), f),
                    ..ix
                },
            },
            FileContent::EqualityDeletes => if f.partition.len() == 0 || unpartitioned == Some(f.spec_id) {
                IndexView {
                    has_eq: true,
                    global_eq: Some(
                        insert_by_apply_seq(
                            match ix.global_eq {
                                Some(g) => g,
                                None => Seq::empty(),
                            },
                            f,
                        ),
                    ),
                    ..ix
                }
            } else {
                IndexView {
                    has_eq: true,
                    eq_by_partition: add_equality(ix.eq_by_partition, key_of(f.spec_id, f.partition), f),
                    ..ix
                }
            },
            FileContent::Data => ix,
        }
    }
}

/// The index of a list of delete files, added in order.
pub open spec fn index_of(files: Seq<ContentFileView>, min_seq: i64, unpartitioned: Option<i32>) -> IndexView
    decreases files.len(),
{
    if files.len() == 0 {
        empty_index()
    } else {
        index_step(index_of(files.drop_last(), min_seq, unpartitioned), files.last(), min_seq, unpartitioned)
    }
}

/// The statistics of a data file that the equality test reads.
pub open spec fn stats_of(f: ContentFileView) -> DataFileStatsView {
    DataFileStatsView {
        lower_bounds: f.lower_bounds,
        upper_bounds: f.upper_bounds,
        null_value_counts: f.null_value_counts,
        value_counts: f.value_counts,
    }
}

/// The files of a group that apply to sequence number `seq`.
pub open spec fn position_applying(g: Seq<ContentFileView>, seq: i64) -> Seq<ContentFileView> {
    g.filter(|f: ContentFileView| file_seq(f) >= seq)
}

/// The files of a group that apply to sequence number `seq` and that the statistics do
/// not rule out.
pub open spec fn equality_applying(g: Seq<ContentFileView>, seq: i64, stats: DataFileStatsView) -> Seq<ContentFileView> {
    g.filter(|f: ContentFileView| apply_seq(f) >= seq).filter(|f: ContentFileView| may_contain_deletes(stats, f))
}

/// The group under a key, empty when there is none.
pub open spec fn group_at<K>(groups: Seq<(K, Seq<ContentFileView>)>, k: K) -> Seq<ContentFileView> {
    match find_key(groups, k, 0) {
        Some(i) => groups[i].1,
        None => Seq::empty(),
    }
}

/// The delete files that apply to data file `d` with sequence number `seq`: the
/// applying global and partition equality deletes; then the deletion vector of the
/// file when it applies (and nothing more), or else the applying position deletes of
/// the partition and of the file's path.
pub open spec fn deletes_for(ix: IndexView, seq: i64, d: ContentFileView) -> Seq<ContentFileView> {
    if ix.file_count == 0 {
        Seq::empty()
    } else {
        let key = key_of(d.spec_id, d.partition);
        let global = match ix.global_eq {
            Some(g) => equality_applying(g, seq, stats_of(d)),
            None => Seq::empty(),
        };
        let eq = match find_key(ix.eq_by_partition, key, 0) {
            Some(i) => equality_applying(ix.eq_by_partition[i].1, seq, stats_of(d)),
            None => Seq::empty(),
        };
        let dv = find_key(ix.dv_by_path, d.file_path, 0);
        if dv is Some && file_seq(ix.dv_by_path[dv->0].1) >= seq {
            global + eq + seq![ix.dv_by_path[dv->0].1]
        } else {
            global + eq + position_applying(group_at(ix.pos_by_partition, key), seq) + position_applying(
                group_at(ix.pos_by_path, d.file_path),
                seq,
            )
        }
    }
}

/// The views of position groups by partition.
pub open spec fn position_groups(v: Seq<(PartitionKey, PositionDeletes)>) -> Seq<(PartitionKey, Seq<ContentFileView>)> {
    Seq::new(v.len(), |i: int| (v[i].0, v[i].1@))
}

/// The views of position groups by path.
pub open spec fn path_groups(v: Seq<(String, PositionDeletes)>) -> Seq<(Seq<char>, Seq<ContentFileView>)> {
    Seq::new(v.len(), |i: int| (v[i].0@, v[i].1@))
}

/// The views of equality groups.
pub open spec fn equality_groups(v: Seq<(PartitionKey, EqualityDeletes)>) -> Seq<(PartitionKey, Seq<ContentFileView>)> {
    Seq::new(v.len(), |i: int| (v[i].0, v[i].1@))
}

/// The views of the deletion vectors by path.
pub open spec fn vector_views(v: Seq<(String, DeleteFile)>) -> Seq<(Seq<char>, ContentFileView)> {
    Seq::new(v.len(), |i: int| (v[i].0@, v[i].1@))
}

/// The index of delete files.
#[derive(Debug)]
pub struct DeleteFileIndex {
    global_eq_deletes: Option<EqualityDeletes>,
    eq_deletes_by_partition: Vec<(PartitionKey, EqualityDeletes)>,
    pos_deletes_by_partition: Vec<(PartitionKey, PositionDeletes)>,
    pos_deletes_by_path: Vec<(String, PositionDeletes)>,
    dv_by_path: Vec<(String, DeleteFile)>,
    has_eq_deletes: bool,
    has_pos_deletes: bool,
    file_count: usize,
}

impl View for DeleteFileIndex {
    type V = IndexView;

    closed spec fn view(&self) -> IndexView {
        IndexView {
            global_eq: match self.global_eq_deletes {
                Some(g) => Some(g@),
                None => None,
            },
            eq_by_partition: equality_groups(self.eq_deletes_by_partition@),
            pos_by_partition: position_groups(self.pos_deletes_by_partition@),
            pos_by_path: path_groups(self.pos_deletes_by_path@),
            dv_by_path: vector_views(self.dv_by_path@),
            has_eq: self.has_eq_deletes,
            has_pos: self.has_pos_deletes,
            file_count: self.file_count as nat,
        }
    }
}

/// Adds a file to the position group under `key`.
fn add_to_position_group(groups: &mut Vec<(PartitionKey, PositionDeletes)>, key: PartitionKey, file: DeleteFile)
    ensures
        position_groups(final(groups)@) == add_position(position_groups(old(groups)@), key, file@),
{
    let ghost gv = position_groups(groups@);
    proof {
        lemma_find_key(gv, key, 0);
    }
    let mut i: usize = 0;
    while i < groups.len()
        invariant
            i <= groups.len(),
            gv == position_groups(groups@),
            gv == position_groups(old(groups)@),
            forall|m: int| 0 <= m < i ==> gv[m].0 != key,
            find_key(gv, key, 0) == find_key(gv, key, i as nat),
        decreases groups.len() - i,
    {
        if groups[i].0 == key {
            assert(gv[i as int].0 == key);
            assert(find_key(gv, key, i as nat) == Some(i as int));
            let ghost before = groups@;
            let (k, mut g) = groups.remove(i);
            g.add(file);
            groups.insert(i, (k, g));
            proof {
                assert(position_groups(groups@) =~= gv.update(i as int, (key, insert_by_seq(gv[i as int].1, file@))));
            }
            return;
        }
        i = i + 1;
    }
    let mut g = PositionDeletes::new();
    g.add(file);
    let ghost before = groups@;
    groups.push((key, g));
    proof {
        assert(insert_by_seq(Seq::<ContentFileView>::empty(), file@) =~= seq![file@]);
        assert(position_groups(groups@) =~= gv.push((key, seq![file@])));
    }
}

/// Adds a file to the equality group under `key`.
fn add_to_equality_group(groups: &mut Vec<(PartitionKey, EqualityDeletes)>, key: PartitionKey, file: DeleteFile)
    ensures
        equality_groups(final(groups)@) == add_equality(equality_groups(old(groups)@), key, file@),
{
    let ghost gv = equality_groups(groups@);
    proof {
        lemma_find_key(gv, key, 0);
    }
    let mut i: usize = 0;
    while i < groups.len()
        invariant
            i <= groups.len(),
            gv == equality_groups(groups@),
            gv == equality_groups(old(groups)@),
            forall|m: int| 0 <= m < i ==> gv[m].0 != key,
            find_key(gv, key, 0) == find_key(gv, key, i as nat),
        decreases groups.len() - i,
    {
        if groups[i].0 == key {
            assert(gv[i as int].0 == key);
            assert(find_key(gv, key, i as nat) == Some(i as int));
            let ghost before = groups@;
            let (k, mut g) = groups.remove(i);
            g.add(file);
            groups.insert(i, (k, g));
            proof {
                assert(equality_groups(groups@) =~= gv.update(i as int, (key, insert_by_apply_seq(gv[i as int].1, file@))));
            }
            return;
        }
        i = i + 1;
    }
    let mut g = EqualityDeletes::new();
    g.add(file);
    let ghost before = groups@;
    groups.push((key, g));
    proof {
        assert(insert_by_apply_seq(Seq::<ContentFileView>::empty(), file@) =~= seq![file@]);
        assert(equality_groups(groups@) =~= gv.push((key, seq![file@])));
    }
}

/// Makes `file` the deletion vector for `path`.
fn set_vector_for(dvs: &mut Vec<(String, DeleteFile)>, path: String, file: DeleteFile)
    ensures
        vector_views(final(dvs)@) == set_vector(vector_views(old(dvs)@), path@, file@),
{
    let ghost gv = vector_views(dvs@);
    proof {
        lemma_find_key(gv, path@, 0);
    }
    let mut i: usize = 0;
    while i < dvs.len()
        invariant
            i <= dvs.len(),
            gv == vector_views(dvs@),
            gv == vector_views(old(dvs)@),
            forall|m: int| 0 <= m < i ==> gv[m].0 != path@,
            find_key(gv, path@, 0) == find_key(gv, path@, i as nat),
        decreases dvs.len() - i,
    {
        if str_eq(dvs[i].0.as_str(), path.as_str()) {
            assert(gv[i as int].0 == path@);
            assert(find_key(gv, path@, i as nat) == Some(i as int));
            dvs.set(i, (path, file));
            assert(vector_views(dvs@) =~= gv.update(i as int, (path@, file@)));
            return;
        }
        i = i + 1;
    }
    dvs.push((path, file));
    assert(vector_views(dvs@) =~= gv.push((path@, file@)));
}

/// Builds a delete file index.
pub struct DeleteFileIndexBuilder {
    delete_files: Vec<DeleteFile>,
    min_sequence_number: i64,
    unpartitioned_spec_id: Option<i32>,
}

impl DeleteFileIndexBuilder {
    /// The files added so far.
    pub closed spec fn files(&self) -> Seq<ContentFileView> {
        delete_views(self.delete_files@)
    }

    /// The minimum sequence number: files at or below it are left out.
    pub closed spec fn min_seq(&self) -> i64 {
        self.min_sequence_number
    }

    /// The spec id that marks unpartitioned equality deletes.
    pub closed spec fn unpartitioned(&self) -> Option<i32> {
        self.unpartitioned_spec_id
    }

    /// A builder without files, minimum sequence number 0 and no unpartitioned spec id.
    pub fn new() -> (r: DeleteFileIndexBuilder)
        ensures
            r.files() == Seq::<ContentFileView>::empty(),
            r.min_seq() == 0,
            r.unpartitioned() is None,
    {
        let r = DeleteFileIndexBuilder { delete_files: Vec::new(), min_sequence_number: 0, unpartitioned_spec_id: None };
        assert(r.files() =~= Seq::<ContentFileView>::empty());
        r
    }

    /// Adds the given files, in order.
    pub fn add_delete_files(self, files: Vec<DeleteFile>) -> (r: DeleteFileIndexBuilder)
        ensures
            r.files() == self.files() + delete_views(files@),
            r.min_seq() == self.min_seq(),
            r.unpartitioned() == self.unpartitioned(),
    {
        let mut b = self;
        let mut more = files;
        let ghost before = delete_views(b.delete_files@);
        let ghost added = delete_views(more@);
        b.delete_files.append(&mut more);
        assert(delete_views(b.delete_files@) =~= before + added);
        b
    }

    /// Adds one file.
    pub fn add_delete_file(self, file: DeleteFile) -> (r: DeleteFileIndexBuilder)
        ensures
            r.files() == self.files().push(file@),
            r.min_seq() == self.min_seq(),
            r.unpartitioned() == self.unpartitioned(),
    {
        let mut b = self;
        let ghost before = delete_views(b.delete_files@);
        b.delete_files.push(file);
        assert(delete_views(b.delete_files@) =~= before.push(file@));
        b
    }

    /// Leaves out the files whose sequence number is at or below `min_seq`.
    pub fn min_sequence_number(self, min_seq: i64) -> (r: DeleteFileIndexBuilder)
        ensures
            r.files() == self.files(),
            r.min_seq() == min_seq,
            r.unpartitioned() == self.unpartitioned(),
    {
        let mut b = self;
        b.min_sequence_number = min_seq;
        b
    }

    /// Makes equality deletes of the given spec global.
    pub fn unpartitioned_spec_id(self, spec_id: i32) -> (r: DeleteFileIndexBuilder)
        ensures
            r.files() == self.files(),
            r.min_seq() == self.min_seq(),
            r.unpartitioned() == Some(spec_id),
    {
        let mut b = self;
        b.unpartitioned_spec_id = Some(spec_id);
        b
    }

    /// The index of the files added.
    pub fn build(self) -> (r: DeleteFileIndex)
        ensures
            r@ == index_of(self.files(), self.min_seq(), self.unpartitioned()),
    {
        let mut ix = DeleteFileIndex {
            global_eq_deletes: None,
            eq_deletes_by_partition: Vec::new(),
            pos_deletes_by_partition: Vec::new(),
            pos_deletes_by_path: Vec::new(),
            dv_by_path: Vec::new(),
            has_eq_deletes: false,
            has_pos_deletes: false,
            file_count: 0,
        };
        let min_seq = self.min_sequence_number;
        let unpartitioned = self.unpartitioned_spec_id;
        let ghost all = self.files();
        let ghost fs = self.delete_files@;
        proof {
            assert(fs.len() == self.delete_files.len());
            assert(ix@.eq_by_partition =~= Seq::<(PartitionKey, Seq<ContentFileView>)>::empty());
            assert(ix@.pos_by_partition =~= Seq::<(PartitionKey, Seq<ContentFileView>)>::empty());
            assert(ix@.pos_by_path =~= Seq::<(Seq<char>, Seq<ContentFileView>)>::empty());
            assert(ix@.dv_by_path =~= Seq::<(Seq<char>, ContentFileView)>::empty());
            assert(ix@ == empty_index());
            assert(all.take(0) =~= Seq::<ContentFileView>::empty());
        }
        for file in it: self.delete_files.into_iter()
            invariant
                it.seq() == fs,
                all == delete_views(fs),
                ix.file_count <= it.index() <= fs.len(),
                fs.len() <= usize::MAX,
                ix@ == index_of(all.take(it.index() as int), min_seq, unpartitioned),
        {
            let ghost i = it.index();
            proof {
                assert(all.take(i + 1).drop_last() =~= all.take(i as int));
                assert(all.take(i + 1).last() == file@);
            }
            let seq = match file.data_sequence_number() {
                Some(s) => s,
                None => 0,
            };
            if seq > min_seq {
                ix.file_count = ix.file_count + 1;
                match file.content() {
                    FileContent::PositionDeletes => {
                        ix.has_pos_deletes = true;
                        match file.referenced_data_file() {
                            Some(p) => {
                                let path = crate::text::owned(p);
                                set_vector_for(&mut ix.dv_by_path, path, file);
                            },
                            None => {
                                let key = PartitionKey::new(file.spec_id(), file.partition());
                                add_to_position_group(&mut ix.pos_deletes_by_partition, key, file);
                            },
                        }
                    },
                    FileContent::EqualityDeletes => {
                        ix.has_eq_deletes = true;
                        let is_unpartitioned = file.partition().is_empty() || match unpartitioned {
                            Some(id) => file.spec_id() == id,
                            None => false,
                        };
                        if is_unpartitioned {
                            let mut g = match ix.global_eq_deletes.take() {
                                Some(g) => g,
                                None => EqualityDeletes::new(),
                            };
                            g.add(file);
                            ix.global_eq_deletes = Some(g);
                        } else {
                            let key = PartitionKey::new(file.spec_id(), file.partition());
                            add_to_equality_group(&mut ix.eq_deletes_by_partition, key, file);
                        }
                    },
                    FileContent::Data => {},
                }
            }
        }
        proof {
            assert(all.take(fs.len() as int) =~= all);
        }
        ix
    }
}

impl DeleteFileIndex {
    /// A builder.
    pub fn builder() -> (r: DeleteFileIndexBuilder)
        ensures
            r.files() == Seq::<ContentFileView>::empty(),
            r.min_seq() == 0,
            r.unpartitioned() is None,
    {
        DeleteFileIndexBuilder::new()
    }

    /// Whether no file was indexed.
    pub fn is_empty(&self) -> (r: bool)
        ensures
            r == (self@.file_count == 0),
    {
        self.file_count == 0
    }

    /// Whether some equality delete was indexed.
    pub fn has_equality_deletes(&self) -> (r: bool)
        ensures
            r == self@.has_eq,
    {
        self.has_eq_deletes
    }

    /// Whether some position delete was indexed.
    pub fn has_position_deletes(&self) -> (r: bool)
        ensures
            r == self@.has_pos,
    {
        self.has_pos_deletes
    }

    /// The number of files indexed.
    pub fn file_count(&self) -> (r: usize)
        ensures
            r == self@.file_count,
    {
        self.file_count
    }
}

impl DeleteFileIndex {
    /// The statistics of a data file that the equality test reads.
    fn extract_data_file_stats(&self, file: &DataFile) -> (r: DataFileStats)
        ensures
            r@ == stats_of(file@),
    {
        DataFileStats {
            lower_bounds: match file.lower_bounds() {
                Some(m) => Some(m.clone()),
                None => None,
            },
            upper_bounds: match file.upper_bounds() {
                Some(m) => Some(m.clone()),
                None => None,
            },
            null_value_counts: match file.null_value_counts() {
                Some(m) => Some(m.clone()),
                None => None,
            },
            value_counts: match file.value_counts() {
                Some(m) => Some(m.clone()),
                None => None,
            },
        }
    }

    /// The delete files that apply to a data file with sequence number `seq`.
    pub fn for_data_file(&self, seq: i64, file: &DataFile) -> (r: Vec<DeleteFile>)
        ensures
            delete_views(r@) == deletes_for(self@, seq, file@),
    {
        if self.is_empty() {
            let r: Vec<DeleteFile> = Vec::new();
            assert(delete_views(r@) =~= Seq::<ContentFileView>::empty());
            return r;
        }
        let ghost d = file@;
        let mut result: Vec<DeleteFile> = Vec::new();
        let ghost global = match self@.global_eq {
            Some(g) => equality_applying(g, seq, stats_of(d)),
            None => Seq::<ContentFileView>::empty(),
        };
        if let Some(global_eq) = &self.global_eq_deletes {
            let stats = self.extract_data_file_stats(file);
            let mut found = global_eq.filter(seq, &stats);
            result.append(&mut found);
        }
        assert(delete_views(result@) =~= global);
        let key = PartitionKey::new(file.spec_id(), file.partition());
        let ghost eqv = match find_key(self@.eq_by_partition, key, 0) {
            Some(i) => equality_applying(self@.eq_by_partition[i].1, seq, stats_of(d)),
            None => Seq::<ContentFileView>::empty(),
        };
        proof {
            lemma_find_key(self@.eq_by_partition, key, 0);
        }
        let mut i: usize = 0;
        while i < self.eq_deletes_by_partition.len()
            invariant_except_break
                delete_views(result@) == global,
            invariant
                i <= self.eq_deletes_by_partition.len(),
                find_key(self@.eq_by_partition, key, 0) == find_key(self@.eq_by_partition, key, i as nat),
                eqv == match find_key(self@.eq_by_partition, key, 0) {
                    Some(i) => equality_applying(self@.eq_by_partition[i].1, seq, stats_of(d)),
                    None => Seq::<ContentFileView>::empty(),
                },
                d == file@,
            ensures
                delete_views(result@) =~= global + eqv,
            decreases self.eq_deletes_by_partition.len() - i,
        {
            if self.eq_deletes_by_partition[i].0 == key {
                assert(find_key(self@.eq_by_partition, key, i as nat) == Some(i as int));
                let stats = self.extract_data_file_stats(file);
                let ghost before = delete_views(result@);
                let mut found = self.eq_deletes_by_partition[i].1.filter(seq, &stats);
                let ghost fv = delete_views(found@);
                result.append(&mut found);
                assert(delete_views(result@) =~= before + fv);
                break;
            }
            i = i + 1;
        }
        let ghost dvi = find_key(self@.dv_by_path, d.file_path, 0);
        proof {
            lemma_find_key(self@.dv_by_path, d.file_path, 0);
        }
        let mut j: usize = 0;
        while j < self.dv_by_path.len()
            invariant
                j <= self.dv_by_path.len(),
                dvi == find_key(self@.dv_by_path, d.file_path, 0),
                dvi == find_key(self@.dv_by_path, d.file_path, j as nat),
                d == file@,
                delete_views(result@) == global + eqv,
                self@.file_count != 0,
                key == key_of(d.spec_id, d.partition),
                global == match self@.global_eq {
                    Some(g) => equality_applying(g, seq, stats_of(d)),
                    None => Seq::<ContentFileView>::empty(),
                },
                eqv == match find_key(self@.eq_by_partition, key, 0) {
                    Some(i) => equality_applying(self@.eq_by_partition[i].1, seq, stats_of(d)),
                    None => Seq::<ContentFileView>::empty(),
                },
            ensures
                !(dvi is Some && file_seq(self@.dv_by_path[dvi->0].1) >= seq),
            decreases self.dv_by_path.len() - j,
        {
            if str_eq(self.dv_by_path[j].0.as_str(), file.file_path()) {
                assert(find_key(self@.dv_by_path, d.file_path, j as nat) == Some(j as int));
                let dv = &self.dv_by_path[j].1;
                let dv_seq = match dv.data_sequence_number() {
                    Some(s) => s,
                    None => 0,
                };
                assert(self@.dv_by_path[j as int].1 == dv@);
                assert(file_seq(dv@) == dv_seq);
                if dv_seq >= seq {
                    let ghost before = delete_views(result@);
                    result.push(dv.duplicate());
                    assert(delete_views(result@) =~= before.push(dv@));
                    assert(deletes_for(self@, seq, d) == global + eqv + seq![dv@]);
                    return result;
                }
                break;
            }
            j = j + 1;
        }
        let ghost pos = position_applying(group_at(self@.pos_by_partition, key), seq);
        proof {
            lemma_find_key(self@.pos_by_partition, key, 0);
            assert(position_applying(Seq::<ContentFileView>::empty(), seq) =~= Seq::<ContentFileView>::empty()) by {
                reveal(Seq::filter);
            }
        }
        let mut k: usize = 0;
        while k < self.pos_deletes_by_partition.len()
            invariant_except_break
                delete_views(result@) == global + eqv,
            invariant
                k <= self.pos_deletes_by_partition.len(),
                find_key(self@.pos_by_partition, key, 0) == find_key(self@.pos_by_partition, key, k as nat),
                pos == position_applying(group_at(self@.pos_by_partition, key), seq),
                position_applying(Seq::<ContentFileView>::empty(), seq) == Seq::<ContentFileView>::empty(),
            ensures
                delete_views(result@) =~= global + eqv + pos,
            decreases self.pos_deletes_by_partition.len() - k,
        {
            if self.pos_deletes_by_partition[k].0 == key {
                assert(find_key(self@.pos_by_partition, key, k as nat) == Some(k as int));
                let ghost before = delete_views(result@);
                let mut found = self.pos_deletes_by_partition[k].1.filter(seq);
                let ghost fv = delete_views(found@);
                assert(fv == pos);
                result.append(&mut found);
                assert(delete_views(result@) =~= before + fv);
                break;
            }
            k = k + 1;
        }
        let ghost by_path = position_applying(group_at(self@.pos_by_path, d.file_path), seq);
        proof {
            lemma_find_key(self@.pos_by_path, d.file_path, 0);
        }
        let mut m: usize = 0;
        while m < self.pos_deletes_by_path.len()
            invariant_except_break
                delete_views(result@) == global + eqv + pos,
            invariant
                m <= self.pos_deletes_by_path.len(),
                d == file@,
                find_key(self@.pos_by_path, d.file_path, 0) == find_key(self@.pos_by_path, d.file_path, m as nat),
                by_path == position_applying(group_at(self@.pos_by_path, d.file_path), seq),
                position_applying(Seq::<ContentFileView>::empty(), seq) == Seq::<ContentFileView>::empty(),
            ensures
                delete_views(result@) =~= global + eqv + pos + by_path,
            decreases self.pos_deletes_by_path.len() - m,
        {
            if str_eq(self.pos_deletes_by_path[m].0.as_str(), file.file_path()) {
                assert(find_key(self@.pos_by_path, d.file_path, m as nat) == Some(m as int));
                let ghost before = delete_views(result@);
                let mut found = self.pos_deletes_by_path[m].1.filter(seq);
                let ghost fv = delete_views(found@);
                assert(fv == by_path);
                result.append(&mut found);
                assert(delete_views(result@) =~= before + fv);
                break;
            }
            m = m + 1;
        }
        result
    }

    /// The delete files that apply to the data file of a manifest entry with sequence
    /// number `entry_seq`.
    pub fn for_entry(&self, entry_seq: i64, file: &DataFile) -> (r: Vec<DeleteFile>)
        ensures
            delete_views(r@) == deletes_for(self@, entry_seq, file@),
    {
        self.for_data_file(entry_seq, file)
    }
}

/// The files of a list of groups, group after group.
pub open spec fn flatten_groups<K>(groups: Seq<(K, Seq<ContentFileView>)>) -> Seq<ContentFileView>
    decreases groups.len(),
{
    if groups.len() == 0 {
        Seq::empty()
    } else {
        flatten_groups(groups.drop_last()) + groups.last().1
    }
}

/// Every indexed file: the global equality deletes, the equality groups, the position
/// groups by partition and by path, then the deletion vectors.
pub open spec fn all_files(ix: IndexView) -> Seq<ContentFileView> {
    (match ix.global_eq {
        Some(g) => g,
        None => Seq::empty(),
    }) + flatten_groups(ix.eq_by_partition) + flatten_groups(ix.pos_by_partition) + flatten_groups(
        ix.pos_by_path,
    ) + Seq::new(ix.dv_by_path.len(), |i: int| ix.dv_by_path[i].1)
}

impl DeleteFileIndex {
    /// Every indexed delete file.
    pub fn all_delete_files(&self) -> (r: Vec<DeleteFile>)
        ensures
            delete_views(r@) == all_files(self@),
    {
        let mut result: Vec<DeleteFile> = Vec::new();
        if let Some(global) = &self.global_eq_deletes {
            let mut found = global.referenced_delete_files();
            result.append(&mut found);
        }
        let ghost g = match self@.global_eq {
            Some(g) => g,
            None => Seq::<ContentFileView>::empty(),
        };
        assert(delete_views(result@) =~= g);
        let mut i: usize = 0;
        while i < self.eq_deletes_by_partition.len()
            invariant
                i <= self.eq_deletes_by_partition.len(),
                delete_views(result@) == g + flatten_groups(self@.eq_by_partition.take(i as int)),
            decreases self.eq_deletes_by_partition.len() - i,
        {
            let ghost before = delete_views(result@);
            let mut found = self.eq_deletes_by_partition[i].1.referenced_delete_files();
            result.append(&mut found);
            proof {
                let t = self@.eq_by_partition.take(i + 1);
                assert(t.drop_last() =~= self@.eq_by_partition.take(i as int));
            }
            assert(delete_views(result@) =~= before + self@.eq_by_partition[i as int].1);
            i = i + 1;
        }
        assert(self@.eq_by_partition.take(i as int) =~= self@.eq_by_partition);
        let ghost e = flatten_groups(self@.eq_by_partition);
        let mut k: usize = 0;
        while k < self.pos_deletes_by_partition.len()
            invariant
                k <= self.pos_deletes_by_partition.len(),
                delete_views(result@) == g + e + flatten_groups(self@.pos_by_partition.take(k as int)),
            decreases self.pos_deletes_by_partition.len() - k,
        {
            let ghost before = delete_views(result@);
            let mut found = self.pos_deletes_by_partition[k].1.referenced_delete_files();
            result.append(&mut found);
            proof {
                let t = self@.pos_by_partition.take(k + 1);
                assert(t.drop_last() =~= self@.pos_by_partition.take(k as int));
            }
            assert(delete_views(result@) =~= before + self@.pos_by_partition[k as int].1);
            k = k + 1;
        }
        assert(self@.pos_by_partition.take(k as int) =~= self@.pos_by_partition);
        let ghost p = flatten_groups(self@.pos_by_partition);
        let mut m: usize = 0;
        while m < self.pos_deletes_by_path.len()
            invariant
                m <= self.pos_deletes_by_path.len(),
                delete_views(result@) == g + e + p + flatten_groups(self@.pos_by_path.take(m as int)),
            decreases self.pos_deletes_by_path.len() - m,
        {
            let ghost before = delete_views(result@);
            let mut found = self.pos_deletes_by_path[m].1.referenced_delete_files();
            result.append(&mut found);
            proof {
                let t = self@.pos_by_path.take(m + 1);
                assert(t.drop_last() =~= self@.pos_by_path.take(m as int));
            }
            assert(delete_views(result@) =~= before + self@.pos_by_path[m as int].1);
            m = m + 1;
        }
        assert(self@.pos_by_path.take(m as int) =~= self@.pos_by_path);
        let ghost q = flatten_groups(self@.pos_by_path);
        let ghost dvs = Seq::new(self@.dv_by_path.len(), |i: int| self@.dv_by_path[i].1);
        let mut n: usize = 0;
        while n < self.dv_by_path.len()
            invariant
                n <= self.dv_by_path.len(),
                dvs == Seq::new(self@.dv_by_path.len(), |i: int| self@.dv_by_path[i].1),
                delete_views(result@) == g + e + p + q + dvs.take(n as int),
            decreases self.dv_by_path.len() - n,
        {
            let ghost before = delete_views(result@);
            result.push(self.dv_by_path[n].1.duplicate());
            assert(dvs.take(n + 1) =~= dvs.take(n as int).push(dvs[n as int]));
            assert(delete_views(result@) =~= before.push(dvs[n as int]));
            n = n + 1;
        }
        assert(dvs.take(n as int) =~= dvs);
        result
    }
}

/// The index counts exactly the files above the minimum sequence number.
pub proof fn lemma_index_counts_files_above_min(files: Seq<ContentFileView>, min_seq: i64, unpartitioned: Option<i32>)
    ensures
        index_of(files, min_seq, unpartitioned).file_count == files.filter(|f: ContentFileView| file_seq(f) > min_seq).len(),
    decreases files.len(),
{
    reveal(Seq::filter);
    if files.len() > 0 {
        lemma_index_counts_files_above_min(files.drop_last(), min_seq, unpartitioned);
    }
}

/// The index has position deletes exactly when some position delete file lies above
/// the minimum sequence number, and equality deletes likewise.
pub proof fn lemma_index_kinds(files: Seq<ContentFileView>, min_seq: i64, unpartitioned: Option<i32>)
    ensures
        index_of(files, min_seq, unpartitioned).has_pos <==> exists|i: int|
            0 <= i < files.len() && file_seq(#[trigger] files[i]) > min_seq && files[i].content == FileContent::PositionDeletes,
        index_of(files, min_seq, unpartitioned).has_eq <==> exists|i: int|
            0 <= i < files.len() && file_seq(#[trigger] files[i]) > min_seq && files[i].content == FileContent::EqualityDeletes,
    decreases files.len(),
{
    if files.len() > 0 {
        let d = files.drop_last();
        lemma_index_kinds(d, min_seq, unpartitioned);
        let n = files.len() - 1;
        assert forall|i: int| 0 <= i < d.len() implies d[i] == files[i] by {}
        if exists|i: int| 0 <= i < files.len() && file_seq(#[trigger] files[i]) > min_seq && files[i].content == FileContent::PositionDeletes {
            let i = choose|i: int| 0 <= i < files.len() && file_seq(#[trigger] files[i]) > min_seq && files[i].content == FileContent::PositionDeletes;
            if i < n {
                assert(d[i] == files[i]);
            }
        }
        if exists|i: int| 0 <= i < files.len() && file_seq(#[trigger] files[i]) > min_seq && files[i].content == FileContent::EqualityDeletes {
            let i = choose|i: int| 0 <= i < files.len() && file_seq(#[trigger] files[i]) > min_seq && files[i].content == FileContent::EqualityDeletes;
            if i < n {
                assert(d[i] == files[i]);
            }
        }
        if exists|i: int| 0 <= i < d.len() && file_seq(#[trigger] d[i]) > min_seq && d[i].content == FileContent::PositionDeletes {
            let i = choose|i: int| 0 <= i < d.len() && file_seq(#[trigger] d[i]) > min_seq && d[i].content == FileContent::PositionDeletes;
            assert(files[i] == d[i]);
        }
        if exists|i: int| 0 <= i < d.len() && file_seq(#[trigger] d[i]) > min_seq && d[i].content == FileContent::EqualityDeletes {
            let i = choose|i: int| 0 <= i < d.len() && file_seq(#[trigger] d[i]) > min_seq && d[i].content == FileContent::EqualityDeletes;
            assert(files[i] == d[i]);
        }
        assert(files[n] == files.last());
    }
}

/// The delete files an index keeps: those above the minimum sequence number.
pub open spec fn kept_files(files: Seq<ContentFileView>, min_seq: i64) -> Seq<ContentFileView> {
    files.filter(|f: ContentFileView| file_seq(f) > min_seq)
}

/// An index counts the files it keeps, is empty exactly when it keeps none, and has
/// position (equality) deletes exactly when it keeps a position (equality) delete
/// file.
pub proof fn lemma_index_summary(files: Seq<ContentFileView>, min_seq: i64, unpartitioned: Option<i32>)
    ensures
        ({
            let ix = index_of(files, min_seq, unpartitioned);
            let kept = kept_files(files, min_seq);
            &&& ix.file_count == kept.len()
            &&& (ix.file_count == 0) <==> kept.len() == 0
            &&& ix.has_pos <==> exists|f: ContentFileView|
                #[trigger] kept.contains(f) && f.content == FileContent::PositionDeletes
            &&& ix.has_eq <==> exists|f: ContentFileView|
                #[trigger] kept.contains(f) && f.content == FileContent::EqualityDeletes
        }),
{
    let pred = |f: ContentFileView| file_seq(f) > min_seq;
    let kept = kept_files(files, min_seq);
    lemma_index_counts_files_above_min(files, min_seq, unpartitioned);
    lemma_index_kinds(files, min_seq, unpartitioned);
    assert forall|f: ContentFileView| #[trigger] kept.contains(f) implies file_seq(f) > min_seq && files.contains(f) by {
        files.lemma_filter_contains_rev(pred, f);
        let j = choose|j: int| 0 <= j < kept.len() && kept[j] == f;
        files.lemma_filter_pred(pred, j);
    }
    assert forall|i: int| 0 <= i < files.len() && file_seq(#[trigger] files[i]) > min_seq implies kept.contains(files[i]) by {
        files.lemma_filter_contains(pred, i);
    }
}

/// When the deletion vector of a data file applies, the lookup gives the applying
/// equality deletes and that vector, and no position delete file.
pub proof fn lemma_vector_takes_precedence(ix: IndexView, seq: i64, d: ContentFileView, i: int)
    requires
        ix.file_count > 0,
        find_key(ix.dv_by_path, d.file_path, 0) == Some(i),
        file_seq(ix.dv_by_path[i].1) >= seq,
    ensures
        deletes_for(ix, seq, d).last() == ix.dv_by_path[i].1,
        deletes_for(ix, seq, d).drop_last() == (match ix.global_eq {
            Some(g) => equality_applying(g, seq, stats_of(d)),
            None => Seq::empty(),
        }) + (match find_key(ix.eq_by_partition, key_of(d.spec_id, d.partition), 0) {
            Some(j) => equality_applying(ix.eq_by_partition[j].1, seq, stats_of(d)),
            None => Seq::empty(),
        }),
{
    let r = deletes_for(ix, seq, d);
    assert(r.drop_last() =~= (match ix.global_eq {
        Some(g) => equality_applying(g, seq, stats_of(d)),
        None => Seq::empty(),
    }) + (match find_key(ix.eq_by_partition, key_of(d.spec_id, d.partition), 0) {
        Some(j) => equality_applying(ix.eq_by_partition[j].1, seq, stats_of(d)),
        None => Seq::empty(),
    }));
}

} // verus!
