//! Position deletes, kept in order of sequence number.
use vstd::prelude::*;
use crate::manifest::content_file::{ContentFile, ContentFileView, DeleteFile, lemma_delete_file_record};

verus! {

broadcast use lemma_delete_file_record;

/// Whether a sequence is in ascending order.
pub open spec fn sorted(s: Seq<i64>) -> bool {
    forall|i: int, j: int| 0 <= i <= j < s.len() ==> s[i] <= s[j]
}

/// The number of leading elements below `x`: where `x` starts in a sorted sequence.
pub open spec fn is_start_of(s: Seq<i64>, x: i64, k: int) -> bool {
    &&& 0 <= k <= s.len()
    &&& forall|i: int| 0 <= i < k ==> s[i] < x
    &&& forall|i: int| k <= i < s.len() ==> s[i] >= x
}

/// Calls `slice::binary_search` on a sorted slice: `Ok` with the index of an element
/// equal to `x`, or `Err` with the index at which `x` would be inserted keeping the
/// order, every element before it being smaller and every one from it on larger.
#[verifier::external_body]
fn binary_search_sorted(s: &[i64], x: i64) -> (r: Result<usize, usize>)
    requires
        sorted(s@),
    ensures
        match r {
            Ok(p) => p < s.len() && s@[p as int] == x,
            Err(p) => p <= s.len() && (forall|i: int| 0 <= i < p ==> s@[i] < x) && (forall|i: int|
                p <= i < s.len() ==> s@[i] > x),
        },
{
    s.binary_search(&x)
}

/// The index of the first element that is at least `seq` in a sorted sequence (its
/// length when there is none): the files from there on are those with a sequence
/// number of `seq` or more.
pub fn find_start_index(seqs: &[i64], seq: i64) -> (r: usize)
    requires
        sorted(seqs@),
    ensures
        is_start_of(seqs@, seq, r as int),
{
    match binary_search_sorted(seqs, seq) {
        Ok(pos) => {
            let mut start = pos;
            while start > 0 && seqs[start - 1] >= seq
                invariant
                    start <= pos < seqs.len(),
                    sorted(seqs@),
                    seqs@[pos as int] == seq,
                    forall|i: int| start <= i <= pos ==> seqs@[i] >= seq,
                decreases start,
            {
                start = start - 1;
            }
            proof {
                assert forall|i: int| start <= i < seqs.len() implies seqs@[i] >= seq by {
                    if i > pos {
                        assert(seqs@[pos as int] <= seqs@[i]);
                    }
                }
                assert forall|i: int| 0 <= i < start implies seqs@[i] < seq by {
                    assert(seqs@[i] <= seqs@[start - 1]);
                }
            }
            start
        },
        Err(pos) => pos,
    }
}

/// The sequence number a delete file is ordered by: its data sequence number, 0 when
/// it has none.
pub open spec fn file_seq(f: ContentFileView) -> i64 {
    match f.data_sequence_number {
        Some(s) => s,
        None => 0,
    }
}

/// The sequence numbers of a list of files.
pub open spec fn seqs_of(fs: Seq<ContentFileView>) -> Seq<i64> {
    Seq::new(fs.len(), |i: int| file_seq(fs[i]))
}

/// The number of leading files of `s` whose sequence number is at most `x`.
pub open spec fn leading_at_most(s: Seq<ContentFileView>, x: i64) -> nat
    decreases s.len(),
{
    if s.len() == 0 {
        0
    } else if file_seq(s[0]) <= x {
        1 + leading_at_most(s.drop_first(), x)
    } else {
        0
    }
}

/// `f` placed after the leading files of `s` whose sequence number is not above its
/// own: in a list ordered by sequence number, after every such file.
pub open spec fn insert_by_seq(s: Seq<ContentFileView>, f: ContentFileView) -> Seq<ContentFileView> {
    let k = leading_at_most(s, file_seq(f)) as int;
    s.take(k).push(f) + s.skip(k)
}

proof fn lemma_leading_at_most(s: Seq<ContentFileView>, x: i64, k: int)
    requires
        0 <= k <= s.len(),
        forall|i: int| 0 <= i < k ==> file_seq(#[trigger] s[i]) <= x,
        forall|i: int| k <= i < s.len() ==> file_seq(#[trigger] s[i]) > x,
    ensures
        leading_at_most(s, x) == k,
    decreases s.len(),
{
    if s.len() > 0 {
        if k > 0 {
            assert(file_seq(s[0]) <= x);
            let d = s.drop_first();
            assert forall|i: int| 0 <= i < k - 1 implies file_seq(#[trigger] d[i]) <= x by {
                assert(d[i] == s[i + 1]);
            }
            assert forall|i: int| k - 1 <= i < d.len() implies file_seq(#[trigger] d[i]) > x by {
                assert(d[i] == s[i + 1]);
            }
            lemma_leading_at_most(d, x, k - 1);
        } else {
            assert(file_seq(s[0]) > x);
        }
    }
}

/// The views of a list of delete files.
pub open spec fn delete_views(fs: Seq<DeleteFile>) -> Seq<ContentFileView> {
    Seq::new(fs.len(), |i: int| fs[i]@)
}

/// Copies of the delete files from index `start` on.
pub(crate) fn copy_from(files: &Vec<DeleteFile>, start: usize) -> (r: Vec<DeleteFile>)
    requires
        start <= files.len(),
    ensures
        delete_views(r@) == delete_views(files@).skip(start as int),
{
    let mut r: Vec<DeleteFile> = Vec::new();
    let mut i = start;
    while i < files.len()
        invariant
            start <= i <= files.len(),
            delete_views(r@) == delete_views(files@).subrange(start as int, i as int),
        decreases files.len() - i,
    {
        let ghost before = delete_views(r@);
        r.push(files[i].duplicate());
        assert(delete_views(r@) =~= before.push(files@[i as int]@));
        i = i + 1;
        assert(delete_views(files@).subrange(start as int, i as int) =~= delete_views(files@).subrange(
            start as int,
            i - 1,
        ).push(files@[i - 1]@));
    }
    assert(delete_views(files@).subrange(start as int, files.len() as int) =~= delete_views(files@).skip(start as int));
    r
}

/// Position delete files in order of sequence number, files with equal sequence numbers
/// in the order they were added.
#[derive(Debug)]
pub struct PositionDeletes {
    seqs: Vec<i64>,
    files: Vec<DeleteFile>,
}

impl View for PositionDeletes {
    type V = Seq<ContentFileView>;

    closed spec fn view(&self) -> Seq<ContentFileView> {
        delete_views(self.files@)
    }
}

impl PositionDeletes {
    /// The sequence numbers are those of the files, in ascending order.
    #[verifier::type_invariant]
    spec fn wf(&self) -> bool {
        &&& self.seqs@ == seqs_of(self@)
        &&& sorted(self.seqs@)
    }

    /// No files.
    pub fn new() -> (r: PositionDeletes)
        ensures
            r@ == Seq::<ContentFileView>::empty(),
    {
        let ghost v = delete_views(Seq::<DeleteFile>::empty());
        assert(v =~= Seq::<ContentFileView>::empty());
        assert(Seq::<i64>::empty() =~= seqs_of(v));
        PositionDeletes { seqs: Vec::new(), files: Vec::new() }
    }

    /// Adds a file after those whose sequence number is not above its own.
    pub fn add(&mut self, file: DeleteFile)
        ensures
            final(self)@ == insert_by_seq(old(self)@, file@),
    {
        proof {
            use_type_invariant(&*self);
        }
        let key = match file.data_sequence_number() {
            Some(s) => s,
            None => 0,
        };
        let mut k = self.seqs.len();
        while k > 0 && self.seqs[k - 1] > key
            invariant
                k <= self.seqs.len(),
                self.seqs@ == seqs_of(self@),
                sorted(self.seqs@),
                forall|i: int| k <= i < self.seqs.len() ==> self.seqs@[i] > key,
            decreases k,
        {
            k = k - 1;
        }
        let ghost old_view = self@;
        let ghost old_seqs = self.seqs@;
        proof {
            assert forall|i: int| 0 <= i < k implies old_seqs[i] <= key by {
                assert(old_seqs[i] <= old_seqs[k - 1]);
            }
        }
        let mut taken = PositionDeletes::new();
        std::mem::swap(self, &mut taken);
        let PositionDeletes { mut seqs, mut files } = taken;
        seqs.insert(k, key);
        files.insert(k, file);
        proof {
            assert(delete_views(files@) =~= old_view.take(k as int).push(file@) + old_view.skip(k as int));
            assert(seqs@ =~= seqs_of(delete_views(files@)));
            assert(forall|i: int| 0 <= i < k ==> file_seq(#[trigger] old_view[i]) <= file_seq(file@)) by {
                assert forall|i: int| 0 <= i < k implies file_seq(#[trigger] old_view[i]) <= file_seq(file@) by {
                    assert(old_seqs[i] == file_seq(old_view[i]));
                }
            }
            assert(forall|i: int| k <= i < old_view.len() ==> file_seq(#[trigger] old_view[i]) > file_seq(file@)) by {
                assert forall|i: int| k <= i < old_view.len() implies file_seq(#[trigger] old_view[i]) > file_seq(file@) by {
                    assert(old_seqs[i] == file_seq(old_view[i]));
                }
            }
            lemma_leading_at_most(old_view, file_seq(file@), k as int);
            assert forall|i: int, j: int| 0 <= i <= j < seqs@.len() implies seqs@[i] <= seqs@[j] by {
                if j < k {
                } else if j == k {
                    if i < k {
                        assert(old_seqs[i] <= key);
                    }
                } else {
                    if i < k {
                        assert(old_seqs[i] <= key && key < old_seqs[j - 1]);
                    } else if i == k {
                        assert(old_seqs[j - 1] > key);
                    } else {
                        assert(old_seqs[i - 1] <= old_seqs[j - 1]);
                    }
                }
            }
        }
        *self = PositionDeletes { seqs, files };
    }

    /// The files that apply to a data file with sequence number `seq`: those whose
    /// sequence number is `seq` or more, in order.
    pub fn filter(&self, seq: i64) -> (r: Vec<DeleteFile>)
        ensures
            delete_views(r@) == self@.filter(|f: ContentFileView| file_seq(f) >= seq),
    {
        proof {
            use_type_invariant(self);
        }
        let start = find_start_index(self.seqs.as_slice(), seq);
        proof {
            lemma_skip_is_filter(self@, start as int, seq);
        }
        if start >= self.files.len() {
            let r: Vec<DeleteFile> = Vec::new();
            assert(delete_views(r@) =~= self@.skip(start as int));
            return r;
        }
        copy_from(&self.files, start)
    }

    /// All the files, in order.
    pub fn referenced_delete_files(&self) -> (r: Vec<DeleteFile>)
        ensures
            delete_views(r@) == self@,
    {
        let r = copy_from(&self.files, 0);
        assert(self@.skip(0) =~= self@);
        r
    }

    /// Whether there are no files.
    pub fn is_empty(&self) -> (r: bool)
        ensures
            r == (self@.len() == 0),
    {
        self.files.len() == 0
    }

    /// The number of files.
    pub fn len(&self) -> (r: usize)
        ensures
            r == self@.len(),
    {
        self.files.len()
    }
}

/// Dropping the files below `q` from a list ordered by sequence number leaves exactly
/// those whose sequence number is `q` or more.
pub proof fn lemma_skip_is_filter(s: Seq<ContentFileView>, k: int, q: i64)
    requires
        is_start_of(seqs_of(s), q, k),
    ensures
        s.skip(k) == s.filter(|f: ContentFileView| file_seq(f) >= q),
    decreases s.len(),
{
    let p = |f: ContentFileView| file_seq(f) >= q;
    reveal(Seq::filter);
    if s.len() == 0 {
        assert(s.skip(k) =~= s);
    } else {
        let d = s.drop_last();
        assert(seqs_of(d) =~= seqs_of(s).drop_last());
        if k == s.len() {
            assert(file_seq(s.last()) < q) by {
                assert(seqs_of(s)[s.len() - 1] < q);
            }
            lemma_skip_is_filter(d, k - 1, q);
            assert(d.skip(k - 1) =~= Seq::<ContentFileView>::empty());
            assert(s.skip(k) =~= Seq::<ContentFileView>::empty());
        } else {
            assert(file_seq(s.last()) >= q) by {
                assert(seqs_of(s)[s.len() - 1] >= q);
            }
            lemma_skip_is_filter(d, k, q);
            assert(s.skip(k) =~= d.skip(k).push(s.last()));
        }
    }
}

} // verus!
