//! File locations: turning paths into URLs, naming the parts of a split output, and
//! deciding when a part is full.
use vstd::prelude::*;
use crate::iceberg_error::IcebergError;
use crate::text::{starts_with, has_prefix, chars_of, string_of, push_str, push_unsigned, decimal_digits, owned};

verus! {

/// Whether `Path::is_absolute` holds of a path with these characters, by the path
/// rules of the platform the library is built for.
pub uninterp spec fn path_is_absolute(p: Seq<char>) -> bool;

/// What `Path::join` followed by `to_string_lossy` gives, by the path rules of the
/// platform the library is built for.
pub uninterp spec fn path_joined(base: Seq<char>, rest: Seq<char>) -> Seq<char>;

/// The last component `Path::file_name` finds in a path, when there is one and it is
/// UTF-8, by the path rules of the platform the library is built for.
pub uninterp spec fn path_file_name(p: Seq<char>) -> Option<Seq<char>>;

/// Calls `Path::is_absolute`; the result is named `path_is_absolute` (the platform's
/// rules for absolute paths are not restated here).
#[verifier::external_body]
fn is_absolute(p: &str) -> (r: bool)
    ensures
        r == path_is_absolute(p@),
{
    std::path::Path::new(p).is_absolute()
}

/// Calls `Path::join` and takes the result as a string; the result is named
/// `path_joined` (the platform's rules for joining are not restated here).
#[verifier::external_body]
pub(crate) fn join_path(base: &str, rest: &str) -> (r: String)
    ensures
        r@ == path_joined(base@, rest@),
{
    std::path::Path::new(base).join(rest).to_string_lossy().into_owned()
}

/// Calls `Path::file_name` and `OsStr::to_str`; the result is named `path_file_name`
/// (the platform's rules for path components are not restated here).
#[verifier::external_body]
pub(crate) fn file_name_of(p: &str) -> (r: Option<String>)
    ensures
        match r {
            Some(n) => path_file_name(p@) == Some(n@),
            None => path_file_name(p@) is None,
        },
{
    std::path::Path::new(p).file_name().and_then(|n| n.to_str()).map(|n| n.to_owned())
}

/// The URL schemes of remote and explicit file locations.
pub open spec fn is_url(p: Seq<char>) -> bool {
    has_prefix(p, "s3://"@) || has_prefix(p, "gs://"@) || has_prefix(p, "az://"@) || has_prefix(p, "abfs://"@)
        || has_prefix(p, "hdfs://"@) || has_prefix(p, "file://"@)
}

/// The characters with every backslash turned into a slash.
pub open spec fn forward_slashes(s: Seq<char>) -> Seq<char> {
    Seq::new(s.len(), |i: int| if s[i] == '\\' { '/' } else { s[i] })
}

/// The location a path stands for: a URL as it is, else a `file://` URL of the
/// absolute path (relative paths taken from `cwd`), with forward slashes.
pub open spec fn normalized_location(p: Seq<char>, cwd: Seq<char>) -> Seq<char> {
    if is_url(p) {
        p
    } else if path_is_absolute(p) {
        "file://"@ + forward_slashes(p)
    } else {
        "file://"@ + forward_slashes(path_joined(cwd, p))
    }
}

fn with_forward_slashes(s: &str) -> (r: String)
    ensures
        r@ == forward_slashes(s@),
{
    let cs = chars_of(s);
    let mut out: Vec<char> = Vec::new();
    let mut i: usize = 0;
    while i < cs.len()
        invariant
            i <= cs.len(),
            cs@ == s@,
            out@ == forward_slashes(s@).take(i as int),
        decreases cs.len() - i,
    {
        let c = cs[i];
        out.push(if c == '\\' { '/' } else { c });
        i = i + 1;
        assert(out@ =~= forward_slashes(s@).take(i as int));
    }
    assert(forward_slashes(s@).take(cs.len() as int) =~= forward_slashes(s@));
    string_of(&out)
}

fn url_location(s: &str) -> (r: String)
    ensures
        r@ == "file://"@ + forward_slashes(s@),
{
    let mut out = owned("file://");
    let tail = with_forward_slashes(s);
    push_str(&mut out, tail.as_str());
    out
}

/// The location a path stands for. A relative path needs the working directory,
/// given as the result of looking it up; its error is the error of the call.
pub fn normalize_path(path: &str, cwd: Result<String, IcebergError>) -> (r: Result<String, IcebergError>)
    ensures
        is_url(path@) || path_is_absolute(path@) ==> (r matches Ok(s) && s@ == normalized_location(path@, Seq::empty())),
        !is_url(path@) && !path_is_absolute(path@) ==> match cwd {
            Ok(c) => (r matches Ok(s) && s@ == normalized_location(path@, c@)),
            Err(e) => r == Err::<String, IcebergError>(e),
        },
{
    if starts_with(path, "s3://") || starts_with(path, "gs://") || starts_with(path, "az://") || starts_with(
        path,
        "abfs://",
    ) || starts_with(path, "hdfs://") || starts_with(path, "file://") {
        return Ok(owned(path));
    }
    if is_absolute(path) {
        return Ok(url_location(path));
    }
    match cwd {
        Ok(c) => {
            let joined = join_path(c.as_str(), path);
            Ok(url_location(joined.as_str()))
        },
        Err(e) => Err(e),
    }
}

/// The path on the local disk of a `file://` URL, or the path itself.
pub open spec fn local_path_of(p: Seq<char>) -> Seq<char> {
    if has_prefix(p, "file://"@) {
        p.skip(7)
    } else {
        p
    }
}

/// The path on the local disk of a `file://` URL, or the path itself.
pub fn local_path(path: &str) -> (r: String)
    ensures
        r@ == local_path_of(path@),
{
    proof {
        reveal_strlit("file://");
    }
    if starts_with(path, "file://") {
        let cs = chars_of(path);
        crate::text::substring(&cs, 7, cs.len())
    } else {
        owned(path)
    }
}

/// A number written in at least five digits, padded with leading zeros.
pub open spec fn padded5(n: nat) -> Seq<char> {
    let d = decimal_digits(n);
    if d.len() < 5 {
        Seq::new((5 - d.len()) as nat, |i: int| '0') + d
    } else {
        d
    }
}

/// The name of part `index` of an output split into parts: the prefix, a dash, the
/// index in at least five digits and `.parquet`.
pub open spec fn part_name(prefix: Seq<char>, index: nat) -> Seq<char> {
    prefix + "-"@ + padded5(index) + ".parquet"@
}

/// The name of part `index` of an output split into parts.
pub fn part_file_name(prefix: &str, index: usize) -> (r: String)
    ensures
        r@ == part_name(prefix@, index as nat),
{
    let mut digits = String::new();
    push_unsigned(&mut digits, index as u64);
    let mut out = owned(prefix);
    push_str(&mut out, "-");
    let dl = chars_of(digits.as_str()).len();
    let mut k: usize = dl;
    let ghost base = out@;
    while k < 5
        invariant
            dl <= k,
            k <= 5 || k == dl,
            dl == decimal_digits(index as nat).len(),
            out@ == base + Seq::new((k - dl) as nat, |i: int| '0'),
        decreases 5 - k,
    {
        push_str(&mut out, "0");
        proof {
            reveal_strlit("0");
        }
        k = k + 1;
        assert(out@ =~= base + Seq::new((k - dl) as nat, |i: int| '0'));
    }
    push_str(&mut out, digits.as_str());
    push_str(&mut out, ".parquet");
    proof {
        reveal_strlit("-");
        if dl >= 5 {
            assert(Seq::new(0nat, |i: int| '0') =~= Seq::<char>::empty());
        }
    }
    assert(out@ =~= part_name(prefix@, index as nat));
    out
}

/// The path of part `index` of an output split into parts under `dir`.
pub fn part_file_path(dir: &str, prefix: &str, index: usize) -> (r: String)
    ensures
        r@ == path_joined(dir@, part_name(prefix@, index as nat)),
{
    let name = part_file_name(prefix, index);
    join_path(dir, name.as_str())
}

/// The filling of the parts of a split output: how much the open part holds, how
/// many batches it has, and the index of the next part written.
#[derive(Debug, Clone, Copy, PartialEq, Eq, Structural)]
pub struct SplitState {
    pub current: usize,
    pub pending: usize,
    pub file_index: usize,
}

impl SplitState {
    /// Nothing written or pending.
    pub fn new() -> (r: SplitState)
        ensures
            r == (SplitState { current: 0, pending: 0, file_index: 0 }),
    {
        SplitState { current: 0, pending: 0, file_index: 0 }
    }

    /// Adds a batch of the given size to the open part. When the part then holds at
    /// least `target`, it is written out under the index returned, and the next part
    /// opens empty.
    pub fn add_batch(&mut self, size: usize, target: usize) -> (r: Option<usize>)
        requires
            old(self).current + size <= usize::MAX,
            old(self).pending < usize::MAX,
            old(self).file_index < usize::MAX,
        ensures
            old(self).current + size >= target ==> r == Some(old(self).file_index) && *final(self) == (SplitState {
                current: 0,
                pending: 0,
                file_index: (old(self).file_index + 1) as usize,
            }),
            old(self).current + size < target ==> r is None && *final(self) == (SplitState {
                current: (old(self).current + size) as usize,
                pending: (old(self).pending + 1) as usize,
                file_index: old(self).file_index,
            }),
    {
        self.current = self.current + size;
        self.pending = self.pending + 1;
        if self.current >= target {
            let index = self.file_index;
            self.current = 0;
            self.pending = 0;
            self.file_index = self.file_index + 1;
            Some(index)
        } else {
            None
        }
    }

    /// The index the last part is written under, when batches are pending.
    pub fn finish(&self) -> (r: Option<usize>)
        ensures
            r == if self.pending > 0 {
                Some(self.file_index)
            } else {
                None::<usize>
            },
    {
        if self.pending > 0 {
            Some(self.file_index)
        } else {
            None
        }
    }
}

} // verus!
