use vstd::prelude::*;

use crate::errors::DirectoryError;

verus! {

/// An opaque file name: a sequence of bytes, compared by value.
#[derive(Debug)]
pub struct FilePath {
    pub bytes: Vec<u8>,
}

impl View for FilePath {
    type V = Seq<u8>;

    open spec fn view(&self) -> Seq<u8> {
        self.bytes@
    }
}

impl FilePath {
    pub fn new(bytes: Vec<u8>) -> (r: FilePath)
        ensures
            r@ == bytes@,
    {
        FilePath { bytes }
    }
}

/// One named byte blob held in memory.
#[derive(Debug)]
pub struct FileEntry {
    pub path: FilePath,
    pub data: Vec<u8>,
}

/// True when some entry of `s` is named `k`.
pub open spec fn path_in_entries(s: Seq<FileEntry>, k: Seq<u8>) -> bool {
    exists|i: int| 0 <= i < s.len() && s[i].path@ == k
}

/// True when no two entries of `s` share a name.
pub open spec fn unique_paths(s: Seq<FileEntry>) -> bool {
    forall|i: int, j: int| 0 <= i < j < s.len() ==> s[i].path@ != s[j].path@
}

/// The mapping from names to contents that a sequence of entries holds; a
/// later entry wins over an earlier one of the same name.
pub open spec fn files_view(s: Seq<FileEntry>) -> Map<Seq<u8>, Seq<u8>>
    decreases s.len(),
{
    if s.len() == 0 {
        Map::empty()
    } else {
        files_view(s.drop_last()).insert(s.last().path@, s.last().data@)
    }
}

pub proof fn lemma_files_view(s: Seq<FileEntry>)
    ensures
        forall|k: Seq<u8>| #[trigger] files_view(s).contains_key(k) <==> path_in_entries(s, k),
        unique_paths(s) ==> forall|i: int|
            0 <= i < s.len() ==> files_view(s)[(#[trigger] s[i]).path@] == s[i].data@,
    decreases s.len(),
{
    if s.len() == 0 {
        assert forall|k: Seq<u8>| #[trigger]
            files_view(s).contains_key(k) <==> path_in_entries(s, k) by {
            assert(!files_view(s).contains_key(k));
            assert(!path_in_entries(s, k));
        }
    } else {
        let pre = s.drop_last();
        lemma_files_view(pre);
        assert forall|k: Seq<u8>| #[trigger]
            files_view(s).contains_key(k) <==> path_in_entries(s, k) by {
            if files_view(s).contains_key(k) {
                if k != s.last().path@ {
                    assert(files_view(pre).contains_key(k));
                    assert(path_in_entries(pre, k));
                    let j = choose|j: int| 0 <= j < pre.len() && pre[j].path@ == k;
                    assert(s[j].path@ == k);
                } else {
                    assert(s[s.len() - 1].path@ == k);
                }
            }
            if path_in_entries(s, k) {
                let j = choose|j: int| 0 <= j < s.len() && s[j].path@ == k;
                if j < s.len() - 1 {
                    assert(pre[j].path@ == k);
                    assert(path_in_entries(pre, k));
                    assert(files_view(pre).contains_key(k));
                } else {
                    assert(k == s.last().path@);
                }
            }
        }
        if unique_paths(s) {
            assert(unique_paths(pre));
            assert forall|i: int| 0 <= i < s.len() implies files_view(s)[(#[trigger] s[i]).path@]
                == s[i].data@ by {
                if i < s.len() - 1 {
                    assert(s[i].path@ != s[s.len() - 1].path@);
                    assert(pre[i] == s[i]);
                    assert(files_view(pre)[pre[i].path@] == pre[i].data@);
                }
            }
        }
    }
}

pub proof fn lemma_files_view_remove(s: Seq<FileEntry>, i: int)
    requires
        unique_paths(s),
        0 <= i < s.len(),
    ensures
        files_view(s.remove(i)) == files_view(s).remove(s[i].path@),
    decreases s.len(),
{
    let pre = s.drop_last();
    if i == s.len() - 1 {
        assert(s.remove(i) =~= pre);
        lemma_files_view(pre);
        assert(!path_in_entries(pre, s[i].path@)) by {
            if path_in_entries(pre, s[i].path@) {
                let j = choose|j: int| 0 <= j < pre.len() && pre[j].path@ == s[i].path@;
                assert(s[j].path@ == s[i].path@);
            }
        }
        assert(!files_view(pre).contains_key(s[i].path@));
        assert(files_view(pre) =~= files_view(pre).insert(s.last().path@, s.last().data@).remove(
            s[i].path@,
        ));
    } else {
        assert(unique_paths(pre));
        lemma_files_view_remove(pre, i);
        assert(s.remove(i).drop_last() =~= pre.remove(i));
        assert(s.remove(i).last() == s.last());
        assert(s[i].path@ != s.last().path@);
        assert(pre[i] == s[i]);
        assert(files_view(pre).remove(s[i].path@).insert(s.last().path@, s.last().data@)
            =~= files_view(pre).insert(s.last().path@, s.last().data@).remove(s[i].path@));
    }
}

/// Copies a byte buffer.
fn copy_bytes(v: &Vec<u8>) -> (r: Vec<u8>)
    ensures
        r@ == v@,
{
    let mut r: Vec<u8> = Vec::new();
    let mut i: usize = 0;
    while i < v.len()
        invariant
            i <= v@.len(),
            r@ == v@.take(i as int),
        decreases v@.len() - i,
    {
        proof {
            assert(v@.take(i + 1) =~= v@.take(i as int).push(v@[i as int]));
        }
        r.push(v[i]);
        i = i + 1;
    }
    proof {
        assert(v@.take(v@.len() as int) =~= v@);
    }
    r
}

/// True iff the two paths name the same file.
fn path_eq(a: &FilePath, b: &FilePath) -> (r: bool)
    ensures
        r == (a@ == b@),
{
    if a.bytes.len() != b.bytes.len() {
        return false;
    }
    let mut i: usize = 0;
    while i < a.bytes.len()
        invariant
            a.bytes@.len() == b.bytes@.len(),
            i <= a.bytes@.len(),
            forall|k: int| 0 <= k < i ==> a.bytes@[k] == b.bytes@[k],
        decreases a.bytes@.len() - i,
    {
        if a.bytes[i] != b.bytes[i] {
            return false;
        }
        i = i + 1;
    }
    proof {
        assert(a.bytes@ =~= b.bytes@);
    }
    true
}

fn clone_path(path: &FilePath) -> (r: FilePath)
    ensures
        r@ == path@,
{
    FilePath { bytes: copy_bytes(&path.bytes) }
}

/// A directory storing every file wholly in memory: the volatile tier.
/// Writes land here instantly; contents are lost on process exit unless
/// drained into a durable store by `persist`.
#[derive(Debug)]
pub struct RamDirectory {
    pub files: Vec<FileEntry>,
}

impl View for RamDirectory {
    type V = Map<Seq<u8>, Seq<u8>>;

    open spec fn view(&self) -> Map<Seq<u8>, Seq<u8>> {
        files_view(self.files@)
    }
}

impl RamDirectory {
    /// Invariant: no two entries share a name.
    pub open spec fn wf(self) -> bool {
        unique_paths(self.files@)
    }

    /// An empty in-memory directory.
    pub fn create() -> (r: RamDirectory)
        ensures
            r.wf(),
            r@ == Map::<Seq<u8>, Seq<u8>>::empty(),
    {
        RamDirectory { files: Vec::new() }
    }

    fn position_of(&self, path: &FilePath) -> (r: Option<usize>)
        ensures
            match r {
                Some(i) => i < self.files@.len() && self.files@[i as int].path@ == path@,
                None => !path_in_entries(self.files@, path@),
            },
    {
        let mut i: usize = 0;
        while i < self.files.len()
            invariant
                i <= self.files@.len(),
                forall|k: int| 0 <= k < i ==> (#[trigger] self.files@[k]).path@ != path@,
            decreases self.files@.len() - i,
        {
            if path_eq(&self.files[i].path, path) {
                return Some(i);
            }
            i = i + 1;
        }
        None
    }

    /// True iff the directory holds a file of that name.
    pub fn file_exists(&self, path: &FilePath) -> (r: bool)
        ensures
            r == self@.contains_key(path@),
    {
        proof {
            lemma_files_view(self.files@);
        }
        self.position_of(path).is_some()
    }

    /// Reads the whole file, failing with not-found when the path is absent.
    pub fn open_read(&self, path: &FilePath) -> (r: Result<Vec<u8>, DirectoryError>)
        requires
            self.wf(),
        ensures
            match r {
                Ok(data) => self@.contains_key(path@) && data@ == self@[path@],
                Err(e) => e == DirectoryError::NotFound && !self@.contains_key(path@),
            },
    {
        proof {
            lemma_files_view(self.files@);
        }
        match self.position_of(path) {
            Some(i) => Ok(copy_bytes(&self.files[i].data)),
            None => Err(DirectoryError::NotFound),
        }
    }

    /// Atomically reads the whole file; same semantics as `open_read` for an
    /// in-memory store.
    pub fn atomic_read(&self, path: &FilePath) -> (r: Result<Vec<u8>, DirectoryError>)
        requires
            self.wf(),
        ensures
            match r {
                Ok(data) => self@.contains_key(path@) && data@ == self@[path@],
                Err(e) => e == DirectoryError::NotFound && !self@.contains_key(path@),
            },
    {
        self.open_read(path)
    }

    /// Removes the file, failing with not-found when the path is absent.
    pub fn delete(&mut self, path: &FilePath) -> (r: Result<(), DirectoryError>)
        requires
            old(self).wf(),
        ensures
            final(self).wf(),
            old(self)@.contains_key(path@) ==> r is Ok && final(self)@ == old(self)@.remove(path@),
            !old(self)@.contains_key(path@) ==> (r matches Err(e) && e == DirectoryError::NotFound)
                && *final(self) == *old(self),
            !final(self)@.contains_key(path@),
    {
        proof {
            lemma_files_view(self.files@);
        }
        let ghost pre = self.files@;
        match self.position_of(path) {
            Some(i) => {
                self.files.remove(i);
                proof {
                    lemma_files_view_remove(pre, i as int);
                    assert forall|k: int, l: int|
                        0 <= k < l < self.files@.len() implies self.files@[k].path@
                        != self.files@[l].path@ by {
                        let ko: int = if k < i as int {
                            k
                        } else {
                            k + 1
                        };
                        let lo: int = if l < i as int {
                            l
                        } else {
                            l + 1
                        };
                        assert(self.files@[k] == pre[ko]);
                        assert(self.files@[l] == pre[lo]);
                    }
                    lemma_files_view(self.files@);
                    assert(!path_in_entries(self.files@, path@)) by {
                        if path_in_entries(self.files@, path@) {
                            let k = choose|k: int|
                                0 <= k < self.files@.len() && self.files@[k].path@ == path@;
                            let ko: int = if k < i as int {
                                k
                            } else {
                                k + 1
                            };
                            assert(pre[ko].path@ == path@);
                            assert(ko != i as int);
                        }
                    }
                }
                Ok(())
            },
            None => Err(DirectoryError::NotFound),
        }
    }

    /// Writes the whole file, replacing any previous content of that name.
    pub fn atomic_write(&mut self, path: &FilePath, data: Vec<u8>) -> (r: Result<
        (),
        DirectoryError,
    >)
        requires
            old(self).wf(),
        ensures
            r is Ok,
            final(self).wf(),
            final(self)@ == old(self)@.insert(path@, data@),
    {
        let _ = self.delete(path);
        let ghost trimmed = self.files@;
        proof {
            lemma_files_view(trimmed);
        }
        self.files.push(FileEntry { path: clone_path(path), data });
        proof {
            assert(self.files@.drop_last() =~= trimmed);
            assert(self.files@.last() == self.files@[trimmed.len() as int]);
            assert forall|k: int, l: int|
                0 <= k < l < self.files@.len() implies self.files@[k].path@
                != self.files@[l].path@ by {
                if l == trimmed.len() as int {
                    assert(self.files@[k] == trimmed[k]);
                    assert(!path_in_entries(trimmed, path@));
                }
            }
            assert(final(self)@ =~= old(self)@.insert(path@, data@));
        }
        Ok(())
    }

    /// Creates the file, failing with already-exists when the path is present.
    pub fn open_write(&mut self, path: &FilePath, data: Vec<u8>) -> (r: Result<
        (),
        DirectoryError,
    >)
        requires
            old(self).wf(),
        ensures
            final(self).wf(),
            old(self)@.contains_key(path@) ==> (r matches Err(e) && e
                == DirectoryError::AlreadyExists) && *final(self) == *old(self),
            !old(self)@.contains_key(path@) ==> r is Ok && final(self)@ == old(self)@.insert(
                path@,
                data@,
            ),
    {
        if self.file_exists(path) {
            return Err(DirectoryError::AlreadyExists);
        }
        let ghost pre = self.files@;
        proof {
            lemma_files_view(pre);
        }
        self.files.push(FileEntry { path: clone_path(path), data });
        proof {
            assert(self.files@.drop_last() =~= pre);
            assert(self.files@.last() == self.files@[pre.len() as int]);
            assert forall|k: int, l: int|
                0 <= k < l < self.files@.len() implies self.files@[k].path@
                != self.files@[l].path@ by {
                if l == pre.len() as int {
                    assert(self.files@[k] == pre[k]);
                    assert(!path_in_entries(pre, path@));
                }
            }
        }
        Ok(())
    }

    /// Drains every file held in memory into the target directory by atomic
    /// writes. When it returns success — always, for an in-memory target —
    /// every path held here is present in the target with its content here;
    /// the volatile contents are kept.
    pub fn persist(&self, target: &mut RamDirectory) -> (r: Result<(), DirectoryError>)
        requires
            self.wf(),
            old(target).wf(),
        ensures
            r is Ok,
            final(target).wf(),
            final(target)@ == old(target)@.union_prefer_right(self@),
            forall|k: Seq<u8>|
                self@.contains_key(k) ==> final(target)@.contains_key(k) && final(target)@[k]
                    == self@[k],
    {
        let mut i: usize = 0;
        while i < self.files.len()
            invariant
                self.wf(),
                target.wf(),
                i <= self.files@.len(),
                target@ == old(target)@.union_prefer_right(files_view(self.files@.take(i as int))),
            decreases self.files@.len() - i,
        {
            let entry = &self.files[i];
            let ghost prev = target@;
            let res = target.atomic_write(&entry.path, copy_bytes(&entry.data));
            proof {
                assert(self.files@.take(i + 1).drop_last() =~= self.files@.take(i as int));
                assert(self.files@.take(i + 1).last() == self.files@[i as int]);
                assert(prev.insert(entry.path@, entry.data@) =~= old(target)@.union_prefer_right(
                    files_view(self.files@.take(i + 1)),
                ));
            }
            i = i + 1;
        }
        proof {
            assert(self.files@.take(self.files@.len() as int) =~= self.files@);
            lemma_files_view(self.files@);
        }
        Ok(())
    }
}

} // verus!
