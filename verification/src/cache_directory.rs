use vstd::prelude::*;

use crate::errors::DirectoryError;
use crate::ram_directory::{FilePath, RamDirectory};

verus! {

/// A directory keeping recent segment files in memory in front of a durable
/// backing store.
///
/// Reads go through the volatile tier first and fall back to the backing
/// store on not-found; writes target the volatile tier exclusively; an
/// explicit `persist` drains the volatile tier into the backing store. Meant
/// for speeding up frequent indexing operations that commit a lot of small
/// segments; it is what makes a soft commit pay no durable-storage cost.
#[derive(Debug)]
pub struct CacheDirectory {
    pub inner: RamDirectory,
    pub ram_directory: RamDirectory,
}

impl CacheDirectory {
    pub open spec fn wf(self) -> bool {
        self.inner.wf() && self.ram_directory.wf()
    }

    /// What a reader of this directory sees: the backing store overlaid by
    /// the volatile tier, the volatile tier winning on a shared name.
    pub open spec fn visible(self) -> Map<Seq<u8>, Seq<u8>> {
        self.inner@.union_prefer_right(self.ram_directory@)
    }

    /// Creates a `CacheDirectory` that wraps an `inner` directory; the
    /// volatile tier starts empty.
    pub fn create(inner: RamDirectory) -> (r: CacheDirectory)
        requires
            inner.wf(),
        ensures
            r.wf(),
            r.inner == inner,
            r.ram_directory@ == Map::<Seq<u8>, Seq<u8>>::empty(),
            r.visible() == inner@,
    {
        let r = CacheDirectory { inner, ram_directory: RamDirectory::create() };
        proof {
            assert(r.visible() =~= r.inner@);
        }
        r
    }

    /// Gives back the backing store, dropping the volatile tier.
    pub fn into_inner(self) -> (r: RamDirectory)
        ensures
            r == self.inner,
    {
        self.inner
    }

    /// Reads the whole file: from the volatile tier when present, else from
    /// the backing store.
    pub fn open_read(&self, path: &FilePath) -> (r: Result<Vec<u8>, DirectoryError>)
        requires
            self.wf(),
        ensures
            match r {
                Ok(data) => self.visible().contains_key(path@) && data@ == self.visible()[path@],
                Err(e) => e == DirectoryError::NotFound && !self.visible().contains_key(path@),
            },
    {
        match self.ram_directory.open_read(path) {
            Ok(data) => Ok(data),
            Err(_) => self.inner.open_read(path),
        }
    }

    /// Atomically reads the whole file, with the same read-through rule.
    pub fn atomic_read(&self, path: &FilePath) -> (r: Result<Vec<u8>, DirectoryError>)
        requires
            self.wf(),
        ensures
            match r {
                Ok(data) => self.visible().contains_key(path@) && data@ == self.visible()[path@],
                Err(e) => e == DirectoryError::NotFound && !self.visible().contains_key(path@),
            },
    {
        match self.ram_directory.atomic_read(path) {
            Ok(data) => Ok(data),
            Err(_) => self.inner.atomic_read(path),
        }
    }

    /// True iff a file of that name is visible through the directory.
    pub fn file_exists(&self, path: &FilePath) -> (r: bool)
        ensures
            r == self.visible().contains_key(path@),
    {
        self.ram_directory.file_exists(path) || self.inner.file_exists(path)
    }

    /// Writes the whole file into the volatile tier only; the backing store
    /// is never written through this operation.
    pub fn atomic_write(&mut self, path: &FilePath, data: Vec<u8>) -> (r: Result<
        (),
        DirectoryError,
    >)
        requires
            old(self).wf(),
        ensures
            r is Ok,
            final(self).wf(),
            final(self).ram_directory@ == old(self).ram_directory@.insert(path@, data@),
            final(self).inner == old(self).inner,
            final(self).visible() == old(self).visible().insert(path@, data@),
    {
        let r = self.ram_directory.atomic_write(path, data);
        proof {
            assert(final(self).visible() =~= old(self).visible().insert(path@, data@));
        }
        r
    }

    /// Creates the file in the volatile tier only, failing with
    /// already-exists when the volatile tier already holds the name.
    pub fn open_write(&mut self, path: &FilePath, data: Vec<u8>) -> (r: Result<
        (),
        DirectoryError,
    >)
        requires
            old(self).wf(),
        ensures
            final(self).wf(),
            old(self).ram_directory@.contains_key(path@) ==> (r matches Err(e) && e
                == DirectoryError::AlreadyExists) && *final(self) == *old(self),
            !old(self).ram_directory@.contains_key(path@) ==> r is Ok
                && final(self).ram_directory@ == old(self).ram_directory@.insert(path@, data@)
                && final(self).inner == old(self).inner
                && final(self).visible() == old(self).visible().insert(path@, data@),
    {
        let r = self.ram_directory.open_write(path, data);
        proof {
            if !old(self).ram_directory@.contains_key(path@) {
                assert(final(self).visible() =~= old(self).visible().insert(path@, data@));
            }
        }
        r
    }

    /// Deletes a volatile file without touching the backing store; when the
    /// name is not volatile, deletes it from the backing store instead.
    pub fn delete(&mut self, path: &FilePath) -> (r: Result<(), DirectoryError>)
        requires
            old(self).wf(),
        ensures
            final(self).wf(),
            old(self).ram_directory@.contains_key(path@) ==> r is Ok && final(self).ram_directory@
                == old(self).ram_directory@.remove(path@) && final(self).inner == old(self).inner,
            !old(self).ram_directory@.contains_key(path@) && old(self).inner@.contains_key(path@)
                ==> r is Ok && final(self).inner@ == old(self).inner@.remove(path@)
                && final(self).ram_directory == old(self).ram_directory,
            !old(self).ram_directory@.contains_key(path@) && !old(self).inner@.contains_key(path@)
                ==> (r matches Err(e) && e == DirectoryError::NotFound)
                && *final(self) == *old(self),
    {
        match self.ram_directory.delete(path) {
            Ok(()) => Ok(()),
            Err(_) => self.inner.delete(path),
        }
    }

    /// A no-op: durability is deferred to `persist`.
    pub fn sync_directory(&self) -> (r: Result<(), DirectoryError>)
        ensures
            r is Ok,
    {
        Ok(())
    }

    /// Drains the volatile tier into the backing store. Success — always,
    /// for in-memory stores — means every volatile file has been atomically
    /// written to the backing store with its latest content. The volatile
    /// copies are kept; a higher-level commit may clear them.
    pub fn persist(&mut self) -> (r: Result<(), DirectoryError>)
        requires
            old(self).wf(),
        ensures
            r is Ok,
            final(self).wf(),
            final(self).ram_directory == old(self).ram_directory,
            final(self).inner@ == old(self).inner@.union_prefer_right(old(self).ram_directory@),
            forall|k: Seq<u8>|
                old(self).ram_directory@.contains_key(k) ==> final(self).inner@.contains_key(k)
                    && final(self).inner@[k] == old(self).ram_directory@[k],
    {
        self.ram_directory.persist(&mut self.inner)
    }
}

/// Read-through correctness of the tiered directory, stated over its view:
/// a path absent from the volatile tier is served from the backing store
/// with the backing store's content, and a path present in the volatile
/// tier is served from the volatile tier with the volatile content,
/// whatever the backing store holds.
pub proof fn lemma_read_through(d: CacheDirectory, p: Seq<u8>)
    ensures
        !d.ram_directory@.contains_key(p) && d.inner@.contains_key(p) ==> d.visible().contains_key(
            p,
        ) && d.visible()[p] == d.inner@[p],
        d.ram_directory@.contains_key(p) ==> d.visible().contains_key(p) && d.visible()[p]
            == d.ram_directory@[p],
        !d.ram_directory@.contains_key(p) && !d.inner@.contains_key(p) ==> !d.visible().contains_key(
            p,
        ),
{
}

} // verus!
