use vstd::prelude::*;

use crate::cache_directory::CacheDirectory;
use crate::errors::DirectoryError;
use crate::ram_directory::{FilePath, RamDirectory};
use crate::segment::{SegmentEntry, SegmentMeta};
use crate::segment_manager::{nonempty_entries, SegmentManager, SegmentRegisters};
use crate::segment_register::{
    entry_metas, id_in_entries, lemma_unique_concat, unique_entry_ids, unique_meta_ids,
};

verus! {

/// Proves that the entries of the three pairwise-disjoint tiers, however
/// concatenated below, carry unique segment ids.
proof fn lemma_tiers_concat_unique(regs: SegmentRegisters)
    requires
        regs.wf(),
    ensures
        unique_entry_ids(regs.all_entries()),
        unique_entry_ids(
            regs.committed.entries@ + (regs.soft_committed.entries@ + regs.uncommitted.entries@),
        ),
{
    let u = regs.uncommitted.entries@;
    let s = regs.soft_committed.entries@;
    let c = regs.committed.entries@;
    lemma_unique_concat(u, s);
    assert forall|x: crate::segment::SegmentId|
        #![trigger id_in_entries(u + s, x)]
        #![trigger id_in_entries(c, x)]
        !(id_in_entries(u + s, x) && id_in_entries(c, x)) by {}
    lemma_unique_concat(u + s, c);
    lemma_unique_concat(s, u);
    assert forall|x: crate::segment::SegmentId|
        #![trigger id_in_entries(c, x)]
        #![trigger id_in_entries(s + u, x)]
        !(id_in_entries(c, x) && id_in_entries(s + u, x)) by {}
    lemma_unique_concat(c, s + u);
}

/// The writer's commit orchestration: one tiered directory for the segment
/// payloads and one segment manager for the tier state, moved through the
/// soft-commit and hard-commit flows in lock-step.
#[derive(Debug)]
pub struct NrtWriter {
    pub directory: CacheDirectory,
    pub manager: SegmentManager,
}

impl NrtWriter {
    pub open spec fn wf(self) -> bool {
        self.directory.wf() && self.manager.wf()
    }

    /// A writer over a fresh index: the tiered directory wraps the given
    /// durable store, every tier starts empty.
    pub fn create(durable: RamDirectory) -> (r: NrtWriter)
        requires
            durable.wf(),
        ensures
            r.wf(),
            r.directory.inner == durable,
            r.directory.ram_directory@ == Map::<Seq<u8>, Seq<u8>>::empty(),
            r.manager.registers.uncommitted.entries@ == Seq::<SegmentEntry>::empty(),
            r.manager.registers.soft_committed.entries@ == Seq::<SegmentEntry>::empty(),
            r.manager.registers.committed.entries@ == Seq::<SegmentEntry>::empty(),
    {
        NrtWriter { directory: CacheDirectory::create(durable), manager: SegmentManager::new() }
    }

    /// A writer over a reloaded index: the given metas — read back from the
    /// durable store — are placed in the committed tier.
    pub fn open(
        durable: RamDirectory,
        segment_metas: Vec<SegmentMeta>,
        delete_cursor: u64,
    ) -> (r: NrtWriter)
        requires
            durable.wf(),
            unique_meta_ids(segment_metas@),
        ensures
            r.wf(),
            r.directory.inner == durable,
            r.directory.ram_directory@ == Map::<Seq<u8>, Seq<u8>>::empty(),
            r.manager.registers.uncommitted.entries@ == Seq::<SegmentEntry>::empty(),
            r.manager.registers.soft_committed.entries@ == Seq::<SegmentEntry>::empty(),
            entry_metas(r.manager.registers.committed.entries@) == segment_metas@,
    {
        let ghost metas = segment_metas@;
        let manager = SegmentManager::from_segments(segment_metas, delete_cursor);
        proof {
            assert(entry_metas(manager.registers.committed.entries@) =~= metas);
        }
        NrtWriter { directory: CacheDirectory::create(durable), manager }
    }

    /// Writes a finalized segment payload through the tiered directory — it
    /// lands in the volatile tier only — and registers the segment in the
    /// uncommitted tier.
    pub fn add_segment(
        &mut self,
        path: &FilePath,
        payload: Vec<u8>,
        meta: SegmentMeta,
        delete_cursor: u64,
    )
        requires
            old(self).wf(),
            !old(self).manager.registers.contains_anywhere(meta.id),
        ensures
            final(self).wf(),
            final(self).directory.ram_directory@ == old(self).directory.ram_directory@.insert(
                path@,
                payload@,
            ),
            final(self).directory.inner == old(self).directory.inner,
            final(self).manager.registers.uncommitted.entries@ == old(
                self,
            ).manager.registers.uncommitted.entries@.push(
                SegmentEntry { meta, delete_cursor },
            ),
            final(self).manager.registers.soft_committed == old(
                self,
            ).manager.registers.soft_committed,
            final(self).manager.registers.committed == old(self).manager.registers.committed,
    {
        let _ = self.directory.atomic_write(path, payload);
        self.manager.add_segment(SegmentEntry { meta, delete_cursor });
    }

    /// The soft-commit path: atomically publishes everything — committed,
    /// soft-committed and uncommitted alike — under the soft-committed tier,
    /// without touching the durable store. Near-real-time readers see the new
    /// segments on their next reload; nothing new is durable.
    pub fn soft_commit(&mut self)
        requires
            old(self).wf(),
        ensures
            final(self).wf(),
            final(self).directory == old(self).directory,
            final(self).manager.registers.soft_committed.entries@ == old(
                self,
            ).manager.registers.committed.entries@ + old(
                self,
            ).manager.registers.soft_committed.entries@ + old(
                self,
            ).manager.registers.uncommitted.entries@,
            final(self).manager.registers.committed.entries@ == Seq::<SegmentEntry>::empty(),
            final(self).manager.registers.uncommitted.entries@ == Seq::<SegmentEntry>::empty(),
    {
        let ghost regs = self.manager.registers;
        let (committed, soft, mut uncommitted) = self.manager.grouped_segment_entries();
        let mut publish = soft;
        publish.append(&mut uncommitted);
        proof {
            lemma_tiers_concat_unique(regs);
        }
        self.manager.soft_commit(committed, publish);
        proof {
            assert(regs.committed.entries@ + (regs.soft_committed.entries@
                + regs.uncommitted.entries@) =~= regs.committed.entries@
                + regs.soft_committed.entries@ + regs.uncommitted.entries@);
        }
    }

    /// The hard-commit path: drains every volatile segment file into the
    /// durable store, then atomically collapses all tiers into the committed
    /// tier, garbage-collecting segments that hold no documents. Returns the
    /// committed segment metadata: the content of the persisted segment meta.
    pub fn commit(&mut self) -> (r: Result<Vec<SegmentMeta>, DirectoryError>)
        requires
            old(self).wf(),
        ensures
            final(self).wf(),
            r matches Ok(metas) && metas@ == entry_metas(
                nonempty_entries(old(self).manager.registers.all_entries()),
            ),
            final(self).manager.registers.committed.entries@ == nonempty_entries(
                old(self).manager.registers.all_entries(),
            ),
            final(self).manager.registers.soft_committed.entries@ == Seq::<SegmentEntry>::empty(),
            final(self).manager.registers.uncommitted.entries@ == Seq::<SegmentEntry>::empty(),
            final(self).directory.inner@ == old(self).directory.inner@.union_prefer_right(
                old(self).directory.ram_directory@,
            ),
            final(self).directory.ram_directory == old(self).directory.ram_directory,
    {
        let persisted = self.directory.persist();
        match persisted {
            Ok(()) => {},
            Err(e) => {
                return Err(e);
            },
        }
        let ghost regs = self.manager.registers;
        let entries = self.manager.segment_entries();
        proof {
            lemma_tiers_concat_unique(regs);
        }
        self.manager.commit(entries);
        let metas = self.manager.committed_segment_metas();
        proof {
            assert(entry_metas(Seq::<SegmentEntry>::empty()) =~= Seq::<SegmentMeta>::empty());
            assert(metas@ =~= entry_metas(nonempty_entries(regs.all_entries())));
        }
        Ok(metas)
    }

    /// Rollback: drops every registered segment, whatever its tier. The
    /// directory is left as it is; file cleanup belongs to the external
    /// garbage collector.
    pub fn rollback(&mut self)
        requires
            old(self).wf(),
        ensures
            final(self).wf(),
            final(self).directory == old(self).directory,
            final(self).manager.registers.uncommitted.entries@ == Seq::<SegmentEntry>::empty(),
            final(self).manager.registers.soft_committed.entries@ == Seq::<SegmentEntry>::empty(),
            final(self).manager.registers.committed.entries@ == Seq::<SegmentEntry>::empty(),
    {
        self.manager.remove_all_segments();
    }
}

} // verus!
