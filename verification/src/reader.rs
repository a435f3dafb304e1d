use vstd::prelude::*;

use crate::segment::{SegmentEntry, SegmentMeta};
use crate::segment_manager::SegmentManager;
use crate::segment_register::entry_metas;

verus! {

/// The total document count of a list of segments.
pub open spec fn total_docs(s: Seq<SegmentMeta>) -> int
    decreases s.len(),
{
    if s.len() == 0 {
        0
    } else {
        total_docs(s.drop_last()) + s.last().num_docs
    }
}

pub proof fn lemma_total_docs_take_le(s: Seq<SegmentMeta>, i: int)
    requires
        0 <= i <= s.len(),
    ensures
        0 <= total_docs(s.take(i)) <= total_docs(s),
    decreases s.len() - i,
{
    if i == s.len() {
        assert(s.take(i) =~= s);
        lemma_total_docs_nonneg(s);
    } else {
        assert(s.take(i + 1).drop_last() =~= s.take(i));
        assert(s.take(i + 1).last() == s[i]);
        lemma_total_docs_nonneg(s.take(i));
        lemma_total_docs_take_le(s, i + 1);
    }
}

pub proof fn lemma_total_docs_nonneg(s: Seq<SegmentMeta>)
    ensures
        total_docs(s) >= 0,
    decreases s.len(),
{
    if s.len() > 0 {
        lemma_total_docs_nonneg(s.drop_last());
    }
}

fn copy_metas(v: &Vec<SegmentMeta>) -> (r: Vec<SegmentMeta>)
    ensures
        r@ == v@,
{
    let mut r: Vec<SegmentMeta> = Vec::new();
    let mut i: usize = 0;
    while i < v.len()
        invariant
            i <= v@.len(),
            r@ == v@.take(i as int),
        decreases v@.len() - i,
    {
        proof {
            assert(v@.take(i + 1) =~= v@.take(i as int).push(v@[i as int]));
        }
        r.push(v[i]);
        i = i + 1;
    }
    proof {
        assert(v@.take(v@.len() as int) =~= v@);
    }
    r
}

fn metas_of_entries(entries: &Vec<SegmentEntry>) -> (r: Vec<SegmentMeta>)
    ensures
        r@ == entry_metas(entries@),
{
    let mut r: Vec<SegmentMeta> = Vec::new();
    let mut i: usize = 0;
    while i < entries.len()
        invariant
            i <= entries@.len(),
            r@ == entry_metas(entries@.take(i as int)),
        decreases entries@.len() - i,
    {
        proof {
            assert(entry_metas(entries@.take(i + 1)) =~= entry_metas(entries@.take(i as int)).push(
                entries@[i as int].meta,
            ));
        }
        r.push(entries[i].meta);
        i = i + 1;
    }
    proof {
        assert(entries@.take(entries@.len() as int) =~= entries@);
    }
    r
}

/// A leased view over a fixed set of segments: the consistent snapshot a
/// query runs against. Every document of every listed segment is searchable.
#[derive(Debug)]
pub struct Searcher {
    pub segments: Vec<SegmentMeta>,
}

impl Searcher {
    /// The number of documents visible to this searcher: what the match-all
    /// query counts.
    pub fn num_docs(&self) -> (r: u64)
        requires
            total_docs(self.segments@) <= u64::MAX,
        ensures
            r == total_docs(self.segments@),
    {
        let mut sum: u64 = 0;
        let mut i: usize = 0;
        while i < self.segments.len()
            invariant
                i <= self.segments@.len(),
                total_docs(self.segments@) <= u64::MAX,
                sum == total_docs(self.segments@.take(i as int)),
            decreases self.segments@.len() - i,
        {
            proof {
                assert(self.segments@.take(i + 1).drop_last() =~= self.segments@.take(i as int));
                assert(self.segments@.take(i + 1).last() == self.segments@[i as int]);
                lemma_total_docs_take_le(self.segments@, i + 1);
            }
            sum = sum + self.segments[i].num_docs as u64;
            i = i + 1;
        }
        proof {
            assert(self.segments@.take(self.segments@.len() as int) =~= self.segments@);
        }
        sum
    }

    /// The metadata of the segments this searcher covers.
    pub fn segment_metas(&self) -> (r: Vec<SegmentMeta>)
        ensures
            r@ == self.segments@,
    {
        copy_metas(&self.segments)
    }
}

/// A reader whose searchable segments come from the persisted segment meta
/// of the durable store.
#[derive(Debug)]
pub struct MetaFileIndexReader {
    pub segments: Vec<SegmentMeta>,
}

impl MetaFileIndexReader {
    /// A reader that has not loaded anything yet.
    pub fn new() -> (r: MetaFileIndexReader)
        ensures
            r.segments@ == Seq::<SegmentMeta>::empty(),
    {
        MetaFileIndexReader { segments: Vec::new() }
    }

    /// Rebuilds the searcher pool from the persisted segment metadata.
    pub fn reload(&mut self, persisted_metas: &Vec<SegmentMeta>)
        ensures
            final(self).segments@ == persisted_metas@,
    {
        self.segments = copy_metas(persisted_metas);
    }

    /// Leases a searcher over the last loaded segment set.
    pub fn searcher(&self) -> (r: Searcher)
        ensures
            r.segments@ == self.segments@,
    {
        Searcher { segments: copy_metas(&self.segments) }
    }
}

/// A near-real-time reader whose searchable segments come straight from a
/// live segment manager, whatever their tier: soft-committed segments are
/// visible here without any durable commit.
#[derive(Debug)]
pub struct NRTReader {
    pub segments: Vec<SegmentMeta>,
}

impl NRTReader {
    /// A reader that has not loaded anything yet.
    pub fn new() -> (r: NRTReader)
        ensures
            r.segments@ == Seq::<SegmentMeta>::empty(),
    {
        NRTReader { segments: Vec::new() }
    }

    /// Rebuilds the searcher pool from a snapshot of the manager: the union
    /// of the uncommitted, soft-committed and committed tiers.
    pub fn reload(&mut self, manager: &SegmentManager)
        ensures
            final(self).segments@ == entry_metas(manager.registers.all_entries()),
    {
        let entries = manager.segment_entries();
        self.segments = metas_of_entries(&entries);
    }

    /// Leases a searcher over the last loaded segment set.
    pub fn searcher(&self) -> (r: Searcher)
        ensures
            r.segments@ == self.segments@,
    {
        Searcher { segments: copy_metas(&self.segments) }
    }
}

/// The entry point to read and search the index: either meta-file-backed —
/// its segments come from the durably persisted meta — or NRT-backed — its
/// segments come from a live segment manager. The variant is chosen at
/// index-open time and does not change; this facade only multiplexes.
#[derive(Debug)]
pub enum IndexReader {
    FromMetaFile(MetaFileIndexReader),
    NRT(NRTReader),
}

impl IndexReader {
    /// Updates searchers so that they reflect the current index state. The
    /// two arguments are the two possible metadata sources: the NRT variant
    /// snapshots the live manager, the meta-file variant re-reads the
    /// persisted metas; each variant ignores the other source.
    pub fn reload(&mut self, manager: &SegmentManager, persisted_metas: &Vec<SegmentMeta>)
        ensures
            *old(self) matches IndexReader::FromMetaFile(m) ==> (*final(self) matches
                IndexReader::FromMetaFile(m2) && m2.segments@ == persisted_metas@),
            *old(self) matches IndexReader::NRT(n) ==> (*final(self) matches IndexReader::NRT(n2)
                && n2.segments@ == entry_metas(manager.registers.all_entries())),
    {
        match self {
            IndexReader::FromMetaFile(meta_file_reader) => meta_file_reader.reload(
                persisted_metas,
            ),
            IndexReader::NRT(nrt_reader) => nrt_reader.reload(manager),
        }
    }

    /// Leases a searcher over the last loaded segment set. The same searcher
    /// must be used for a whole query, as it guarantees a consistent segment
    /// set.
    pub fn searcher(&self) -> (r: Searcher)
        ensures
            *self matches IndexReader::FromMetaFile(m) ==> r.segments@ == m.segments@,
            *self matches IndexReader::NRT(n) ==> r.segments@ == n.segments@,
    {
        match self {
            IndexReader::FromMetaFile(meta_file_reader) => meta_file_reader.searcher(),
            IndexReader::NRT(nrt_reader) => nrt_reader.searcher(),
        }
    }
}

} // verus!
