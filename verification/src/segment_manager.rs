use vstd::prelude::*;
use vstd::pervasive::unreached;

use crate::errors::IndexError;
use crate::segment::{SegmentEntry, SegmentId, SegmentMeta};
use crate::segment_register::{
    entry_metas, id_in_entries, mergeable_metas, remove_ids, unique_entry_ids, unique_meta_ids,
    SegmentRegister,
};

verus! {

/// True when no segment id occurs in both `a` and `b`.
pub open spec fn disjoint_registers(a: SegmentRegister, b: SegmentRegister) -> bool {
    forall|x: SegmentId|
        #![trigger id_in_entries(a.entries@, x)]
        #![trigger id_in_entries(b.entries@, x)]
        !(id_in_entries(a.entries@, x) && id_in_entries(b.entries@, x))
}

/// The entries of `s` whose document count is not zero, in order.
pub open spec fn nonempty_entries(s: Seq<SegmentEntry>) -> Seq<SegmentEntry>
    decreases s.len(),
{
    if s.len() == 0 {
        Seq::empty()
    } else {
        let rest = nonempty_entries(s.drop_last());
        if s.last().meta.num_docs == 0 {
            rest
        } else {
            rest.push(s.last())
        }
    }
}

pub proof fn lemma_nonempty_entries(s: Seq<SegmentEntry>)
    ensures
        forall|k: int|
            0 <= k < nonempty_entries(s).len() ==> s.contains(#[trigger] nonempty_entries(s)[k])
                && nonempty_entries(s)[k].meta.num_docs != 0,
        unique_entry_ids(s) ==> unique_entry_ids(nonempty_entries(s)),
        forall|x: SegmentId|
            #[trigger] id_in_entries(nonempty_entries(s), x) ==> id_in_entries(s, x),
    decreases s.len(),
{
    if s.len() == 0 {
    } else {
        let pre = s.drop_last();
        lemma_nonempty_entries(pre);
        let rest = nonempty_entries(pre);
        assert forall|k: int|
            0 <= k < nonempty_entries(s).len() implies s.contains(
            #[trigger] nonempty_entries(s)[k],
        ) && nonempty_entries(s)[k].meta.num_docs != 0 by {
            if k < rest.len() {
                assert(pre.contains(rest[k]));
                let j = choose|j: int| 0 <= j < pre.len() && pre[j] == rest[k];
                assert(s[j] == rest[k]);
            } else {
                assert(nonempty_entries(s)[k] == s.last());
                assert(s[s.len() - 1] == s.last());
            }
        }
        if unique_entry_ids(s) {
            assert(unique_entry_ids(pre));
            if s.last().meta.num_docs != 0 {
                assert forall|i: int, j: int|
                    0 <= i < j < nonempty_entries(s).len() implies nonempty_entries(s)[i].meta.id
                    != nonempty_entries(s)[j].meta.id by {
                    if j == rest.len() {
                        assert(pre.contains(rest[i]));
                        let m = choose|m: int| 0 <= m < pre.len() && pre[m] == rest[i];
                        assert(s[m] == rest[i]);
                        assert(s[m].meta.id != s[s.len() - 1].meta.id);
                    }
                }
            }
        }
        assert forall|x: SegmentId| #[trigger]
            id_in_entries(nonempty_entries(s), x) implies id_in_entries(s, x) by {
            let k = choose|k: int|
                0 <= k < nonempty_entries(s).len() && nonempty_entries(s)[k].meta.id == x;
            if k < rest.len() {
                assert(id_in_entries(rest, x));
                let j = choose|j: int| 0 <= j < pre.len() && pre[j].meta.id == x;
                assert(s[j].meta.id == x);
            } else {
                assert(s[s.len() - 1].meta.id == x);
            }
        }
    }
}

/// The tier that uniformly holds a set of segments.
#[derive(Clone, Copy, PartialEq, Eq, Structural, Debug)]
pub enum SegmentsStatus {
    Committed,
    SoftCommitted,
    Uncommitted,
}

/// The three tiers of segment registers. Invariant: pairwise disjoint by
/// segment id — a segment inhabits at most one tier at any moment.
#[derive(Debug)]
pub struct SegmentRegisters {
    pub uncommitted: SegmentRegister,
    pub soft_committed: SegmentRegister,
    pub committed: SegmentRegister,
}

impl SegmentRegisters {
    /// Each register well formed, and the three pairwise disjoint by id.
    pub open spec fn wf(self) -> bool {
        &&& self.uncommitted.wf()
        &&& self.soft_committed.wf()
        &&& self.committed.wf()
        &&& disjoint_registers(self.uncommitted, self.soft_committed)
        &&& disjoint_registers(self.uncommitted, self.committed)
        &&& disjoint_registers(self.soft_committed, self.committed)
    }

    /// True when some tier holds an entry with the given id.
    pub open spec fn contains_anywhere(self, id: SegmentId) -> bool {
        self.uncommitted.contains_id(id) || self.soft_committed.contains_id(id)
            || self.committed.contains_id(id)
    }

    /// Every entry, uncommitted first, then soft committed, then committed.
    pub open spec fn all_entries(self) -> Seq<SegmentEntry> {
        self.uncommitted.entries@ + self.soft_committed.entries@ + self.committed.entries@
    }

    /// The register of the given tier.
    pub open spec fn register_of(self, status: SegmentsStatus) -> SegmentRegister {
        match status {
            SegmentsStatus::Uncommitted => self.uncommitted,
            SegmentsStatus::SoftCommitted => self.soft_committed,
            SegmentsStatus::Committed => self.committed,
        }
    }

    /// The tier that holds every id of `ids`, searched in the fixed order
    /// uncommitted, soft committed, committed; `None` when no single tier
    /// holds them all.
    pub open spec fn status_of(self, ids: Seq<SegmentId>) -> Option<SegmentsStatus> {
        if self.uncommitted.contains_all_ids(ids) {
            Some(SegmentsStatus::Uncommitted)
        } else if self.soft_committed.contains_all_ids(ids) {
            Some(SegmentsStatus::SoftCommitted)
        } else if self.committed.contains_all_ids(ids) {
            Some(SegmentsStatus::Committed)
        } else {
            None
        }
    }

    /// Classifies `segment_ids`: the unique tier containing all of them, or
    /// `None` when they are mixed across tiers or partly absent.
    pub fn segments_status(&self, segment_ids: &Vec<SegmentId>) -> (r: Option<SegmentsStatus>)
        ensures
            r == self.status_of(segment_ids@),
    {
        if self.uncommitted.contains_all(segment_ids) {
            Some(SegmentsStatus::Uncommitted)
        } else if self.soft_committed.contains_all(segment_ids) {
            Some(SegmentsStatus::SoftCommitted)
        } else if self.committed.contains_all(segment_ids) {
            Some(SegmentsStatus::Committed)
        } else {
            None
        }
    }

    /// A snapshot of the three registers, committed first, then soft
    /// committed, then uncommitted.
    pub fn iter(&self) -> (r: Vec<SegmentRegister>)
        ensures
            r@.len() == 3,
            r@[0].entries@ == self.committed.entries@,
            r@[1].entries@ == self.soft_committed.entries@,
            r@[2].entries@ == self.uncommitted.entries@,
    {
        let mut r: Vec<SegmentRegister> = Vec::new();
        r.push(SegmentRegister { entries: self.committed.segment_entries() });
        r.push(SegmentRegister { entries: self.soft_committed.segment_entries() });
        r.push(SegmentRegister { entries: self.uncommitted.segment_entries() });
        r
    }
}

/// The segment manager stores the list of segments as well as their state
/// (uncommitted, soft committed, or durably committed), and guarantees the
/// atomicity of the state transitions, merges especially.
#[derive(Debug)]
pub struct SegmentManager {
    pub registers: SegmentRegisters,
}

impl SegmentManager {
    pub open spec fn wf(self) -> bool {
        self.registers.wf()
    }

    /// A manager with empty tiers.
    pub fn new() -> (r: SegmentManager)
        ensures
            r.wf(),
            r.registers.uncommitted.entries@ == Seq::<SegmentEntry>::empty(),
            r.registers.soft_committed.entries@ == Seq::<SegmentEntry>::empty(),
            r.registers.committed.entries@ == Seq::<SegmentEntry>::empty(),
    {
        SegmentManager {
            registers: SegmentRegisters {
                uncommitted: SegmentRegister::new(),
                soft_committed: SegmentRegister::new(),
                committed: SegmentRegister::new(),
            },
        }
    }

    /// A manager reflecting a reloaded on-disk state: the given metas are
    /// placed in the committed tier, every entry starting at the given
    /// delete-cursor snapshot; the other tiers start empty.
    pub fn from_segments(segment_metas: Vec<SegmentMeta>, delete_cursor: u64) -> (r: SegmentManager)
        requires
            unique_meta_ids(segment_metas@),
        ensures
            r.wf(),
            r.registers.uncommitted.entries@ == Seq::<SegmentEntry>::empty(),
            r.registers.soft_committed.entries@ == Seq::<SegmentEntry>::empty(),
            r.registers.committed.entries@.len() == segment_metas@.len(),
            forall|i: int|
                0 <= i < segment_metas@.len() ==> (#[trigger] r.registers.committed.entries@[i]).meta
                    == segment_metas@[i] && r.registers.committed.entries@[i].delete_cursor
                    == delete_cursor,
    {
        SegmentManager {
            registers: SegmentRegisters {
                uncommitted: SegmentRegister::new(),
                soft_committed: SegmentRegister::new(),
                committed: SegmentRegister::from_metas(&segment_metas, delete_cursor),
            },
        }
    }

    /// For each tier, the metadata of the segments available for a new merge:
    /// those whose id is not in the exclusion set `in_merge_segment_ids`.
    /// Returned in the order committed, soft committed, uncommitted.
    pub fn get_mergeable_segments(&self, in_merge_segment_ids: &Vec<SegmentId>) -> (r: (
        Vec<SegmentMeta>,
        Vec<SegmentMeta>,
        Vec<SegmentMeta>,
    ))
        ensures
            r.0@ == mergeable_metas(self.registers.committed.entries@, in_merge_segment_ids@),
            r.1@ == mergeable_metas(self.registers.soft_committed.entries@, in_merge_segment_ids@),
            r.2@ == mergeable_metas(self.registers.uncommitted.entries@, in_merge_segment_ids@),
    {
        (
            self.registers.committed.get_mergeable_segments(in_merge_segment_ids),
            self.registers.soft_committed.get_mergeable_segments(in_merge_segment_ids),
            self.registers.uncommitted.get_mergeable_segments(in_merge_segment_ids),
        )
    }

    /// Every segment entry, whatever its tier: uncommitted first, then soft
    /// committed, then committed.
    pub fn segment_entries(&self) -> (r: Vec<SegmentEntry>)
        ensures
            r@ == self.registers.all_entries(),
    {
        let mut entries = self.registers.uncommitted.segment_entries();
        let mut soft = self.registers.soft_committed.segment_entries();
        let mut committed = self.registers.committed.segment_entries();
        entries.append(&mut soft);
        entries.append(&mut committed);
        entries
    }

    /// The entries of each tier, in the order committed, soft committed,
    /// uncommitted.
    pub fn grouped_segment_entries(&self) -> (r: (
        Vec<SegmentEntry>,
        Vec<SegmentEntry>,
        Vec<SegmentEntry>,
    ))
        ensures
            r.0@ == self.registers.committed.entries@,
            r.1@ == self.registers.soft_committed.entries@,
            r.2@ == self.registers.uncommitted.entries@,
    {
        (
            self.registers.committed.segment_entries(),
            self.registers.soft_committed.segment_entries(),
            self.registers.uncommitted.segment_entries(),
        )
    }

    /// Garbage-collects committed segments that hold no documents.
    fn remove_empty_segments(&mut self)
        requires
            old(self).wf(),
        ensures
            final(self).wf(),
            final(self).registers.committed.entries@ == nonempty_entries(
                old(self).registers.committed.entries@,
            ),
            final(self).registers.soft_committed == old(self).registers.soft_committed,
            final(self).registers.uncommitted == old(self).registers.uncommitted,
    {
        let ghost pre = self.registers.committed.entries@;
        let mut kept: Vec<SegmentEntry> = Vec::new();
        let mut i: usize = 0;
        while i < self.registers.committed.entries.len()
            invariant
                i <= self.registers.committed.entries@.len(),
                kept@ == nonempty_entries(self.registers.committed.entries@.take(i as int)),
            decreases self.registers.committed.entries@.len() - i,
        {
            let e = self.registers.committed.entries[i];
            proof {
                assert(self.registers.committed.entries@.take(i + 1).drop_last()
                    =~= self.registers.committed.entries@.take(i as int));
                assert(self.registers.committed.entries@.take(i + 1).last() == e);
            }
            if e.meta.num_docs != 0 {
                kept.push(e);
            }
            i = i + 1;
        }
        proof {
            assert(self.registers.committed.entries@.take(
                self.registers.committed.entries@.len() as int,
            ) =~= self.registers.committed.entries@);
            lemma_nonempty_entries(pre);
        }
        self.registers.committed = SegmentRegister { entries: kept };
    }

    /// Rollback primitive: atomically clears all three tiers.
    pub fn remove_all_segments(&mut self)
        ensures
            final(self).wf(),
            final(self).registers.uncommitted.entries@ == Seq::<SegmentEntry>::empty(),
            final(self).registers.soft_committed.entries@ == Seq::<SegmentEntry>::empty(),
            final(self).registers.committed.entries@ == Seq::<SegmentEntry>::empty(),
    {
        self.registers.committed.clear();
        self.registers.soft_committed.clear();
        self.registers.uncommitted.clear();
    }

    /// Hard-commit transition: atomically clears all three tiers and places
    /// the given entries in the committed tier. Invoked after durable
    /// persistence has succeeded externally.
    pub fn commit(&mut self, segment_entries: Vec<SegmentEntry>)
        requires
            unique_entry_ids(segment_entries@),
        ensures
            final(self).wf(),
            final(self).registers.committed.entries@ == segment_entries@,
            final(self).registers.soft_committed.entries@ == Seq::<SegmentEntry>::empty(),
            final(self).registers.uncommitted.entries@ == Seq::<SegmentEntry>::empty(),
    {
        self.registers.uncommitted.clear();
        self.registers.soft_committed.clear();
        self.registers.committed = SegmentRegister { entries: segment_entries };
    }

    /// Soft-commit transition: atomically clears all three tiers and rebuilds
    /// the soft-committed tier as the concatenation of the two given lists,
    /// committed entries first. After a soft commit everything visible to
    /// readers lives under the soft-committed tier, until a hard commit.
    pub fn soft_commit(
        &mut self,
        committed_segment_entries: Vec<SegmentEntry>,
        soft_committed_segment_entries: Vec<SegmentEntry>,
    )
        requires
            unique_entry_ids(committed_segment_entries@ + soft_committed_segment_entries@),
        ensures
            final(self).wf(),
            final(self).registers.soft_committed.entries@ == committed_segment_entries@
                + soft_committed_segment_entries@,
            final(self).registers.committed.entries@ == Seq::<SegmentEntry>::empty(),
            final(self).registers.uncommitted.entries@ == Seq::<SegmentEntry>::empty(),
    {
        let mut all = committed_segment_entries;
        let mut soft = soft_committed_segment_entries;
        all.append(&mut soft);
        self.registers.uncommitted.clear();
        self.registers.committed.clear();
        self.registers.soft_committed = SegmentRegister { entries: all };
    }

    /// Atomically inserts a freshly written segment into the uncommitted tier.
    pub fn add_segment(&mut self, segment_entry: SegmentEntry)
        requires
            old(self).wf(),
            !old(self).registers.contains_anywhere(segment_entry.meta.id),
        ensures
            final(self).wf(),
            final(self).registers.uncommitted.entries@ == old(self).registers.uncommitted.entries@.push(segment_entry),
            final(self).registers.soft_committed == old(self).registers.soft_committed,
            final(self).registers.committed == old(self).registers.committed,
    {
        self.registers.uncommitted.add_segment_entry(segment_entry);
    }

    /// Marks a list of segments as in merge and returns their entries, in the
    /// order the ids were given. Fails with invalid-argument if the ids are
    /// not all uncommitted, all soft committed or all committed. Does not
    /// mutate state.
    pub fn start_merge(&self, segment_ids: &Vec<SegmentId>) -> (r: Result<
        Vec<SegmentEntry>,
        IndexError,
    >)
        requires
            self.wf(),
        ensures
            match self.registers.status_of(segment_ids@) {
                Some(st) => r matches Ok(es) && es@.len() == segment_ids@.len() && forall|i: int|
                    0 <= i < segment_ids@.len() ==> es@[i] == self.registers.register_of(
                        st,
                    ).entry_for(#[trigger] segment_ids@[i]),
                None => r matches Err(e) && e == IndexError::InvalidArgument,
            },
    {
        if self.registers.uncommitted.contains_all(segment_ids) {
            Ok(self.registers.uncommitted.collect_entries(segment_ids))
        } else if self.registers.soft_committed.contains_all(segment_ids) {
            Ok(self.registers.soft_committed.collect_entries(segment_ids))
        } else if self.registers.committed.contains_all(segment_ids) {
            Ok(self.registers.committed.collect_entries(segment_ids))
        } else {
            Err(IndexError::InvalidArgument)
        }
    }

    /// Replaces a list of merged segments by their equivalent merged segment,
    /// within the unique tier that held all of them, and returns that tier.
    /// Fails with invalid-argument if the before-set is not uniformly resident
    /// in one tier — which may legitimately occur after a rollback.
    pub fn end_merge(
        &mut self,
        before_merge_segment_ids: &Vec<SegmentId>,
        after_merge_segment_entry: SegmentEntry,
    ) -> (r: Result<SegmentsStatus, IndexError>)
        requires
            old(self).wf(),
            old(self).registers.contains_anywhere(after_merge_segment_entry.meta.id)
                ==> before_merge_segment_ids@.contains(after_merge_segment_entry.meta.id),
        ensures
            final(self).wf(),
            match old(self).registers.status_of(before_merge_segment_ids@) {
                Some(st) => {
                    &&& r matches Ok(got) && got == st
                    &&& final(self).registers.register_of(st).entries@ == remove_ids(
                        old(self).registers.register_of(st).entries@,
                        before_merge_segment_ids@,
                    ).push(after_merge_segment_entry)
                    &&& final(self).registers.register_of(st).contains_id(
                        after_merge_segment_entry.meta.id,
                    )
                    &&& forall|i: int|
                        0 <= i < before_merge_segment_ids@.len()
                            && (#[trigger] before_merge_segment_ids@[i])
                            != after_merge_segment_entry.meta.id
                            ==> !final(self).registers.register_of(st).contains_id(
                            before_merge_segment_ids@[i],
                        )
                    &&& (st != SegmentsStatus::Uncommitted ==> final(self).registers.uncommitted
                        == old(self).registers.uncommitted)
                    &&& (st != SegmentsStatus::SoftCommitted
                        ==> final(self).registers.soft_committed == old(self).registers.soft_committed)
                    &&& (st != SegmentsStatus::Committed ==> final(self).registers.committed == old(self).registers.committed)
                },
                None => {
                    &&& r matches Err(e) && e == IndexError::InvalidArgument
                    &&& *final(self) == *old(self)
                },
            },
    {
        let status = match self.registers.segments_status(before_merge_segment_ids) {
            Some(status) => status,
            None => {
                return Err(IndexError::InvalidArgument);
            },
        };
        match status {
            SegmentsStatus::Uncommitted => {
                replace_merged(
                    &mut self.registers.uncommitted,
                    before_merge_segment_ids,
                    after_merge_segment_entry,
                    Ghost(self.registers.soft_committed),
                    Ghost(self.registers.committed),
                );
            },
            SegmentsStatus::SoftCommitted => {
                replace_merged(
                    &mut self.registers.soft_committed,
                    before_merge_segment_ids,
                    after_merge_segment_entry,
                    Ghost(self.registers.uncommitted),
                    Ghost(self.registers.committed),
                );
            },
            SegmentsStatus::Committed => {
                replace_merged(
                    &mut self.registers.committed,
                    before_merge_segment_ids,
                    after_merge_segment_entry,
                    Ghost(self.registers.uncommitted),
                    Ghost(self.registers.soft_committed),
                );
            },
        }
        Ok(status)
    }

    /// First garbage-collects empty committed segments, then returns the
    /// metadata of the committed tier followed by the soft-committed tier:
    /// the source of truth for the persisted segment meta during a hard
    /// commit. No committed entry with document count zero remains.
    pub fn committed_segment_metas(&mut self) -> (r: Vec<SegmentMeta>)
        requires
            old(self).wf(),
        ensures
            final(self).wf(),
            final(self).registers.committed.entries@ == nonempty_entries(
                old(self).registers.committed.entries@,
            ),
            final(self).registers.soft_committed == old(self).registers.soft_committed,
            final(self).registers.uncommitted == old(self).registers.uncommitted,
            r@ == entry_metas(final(self).registers.committed.entries@) + entry_metas(
                old(self).registers.soft_committed.entries@,
            ),
            forall|i: int|
                0 <= i < final(self).registers.committed.entries@.len() ==> (#[trigger] final(self).registers.committed.entries@[i]).meta.num_docs != 0,
    {
        self.remove_empty_segments();
        proof {
            lemma_nonempty_entries(old(self).registers.committed.entries@);
        }
        let mut committed = self.registers.committed.segment_metas();
        let mut soft = self.registers.soft_committed.segment_metas();
        committed.append(&mut soft);
        committed
    }
}

/// Tier disjointness: in every well-formed manager state — established by
/// the constructors and preserved by every operation, as their contracts
/// state — no segment id inhabits two tiers at once.
pub proof fn lemma_tier_disjointness(m: SegmentManager)
    requires
        m.wf(),
    ensures
        forall|x: SegmentId|
            !(#[trigger] m.registers.uncommitted.contains_id(x)
                && m.registers.soft_committed.contains_id(x)),
        forall|x: SegmentId|
            !(#[trigger] m.registers.uncommitted.contains_id(x)
                && m.registers.committed.contains_id(x)),
        forall|x: SegmentId|
            !(#[trigger] m.registers.soft_committed.contains_id(x)
                && m.registers.committed.contains_id(x)),
{
}

/// Within one register, removes every id of `before_ids` and inserts the
/// merged replacement. The two ghost arguments are the other two tiers; the
/// contract carries their disjointness with the new state so that the caller
/// can re-establish the three-way invariant.
fn replace_merged(
    register: &mut SegmentRegister,
    before_ids: &Vec<SegmentId>,
    after_entry: SegmentEntry,
    other_a: Ghost<SegmentRegister>,
    other_b: Ghost<SegmentRegister>,
)
    requires
        old(register).wf(),
        old(register).contains_all_ids(before_ids@),
        old(register).contains_id(after_entry.meta.id) ==> before_ids@.contains(
            after_entry.meta.id,
        ),
        disjoint_registers(*old(register), other_a@),
        disjoint_registers(*old(register), other_b@),
        !other_a@.contains_id(after_entry.meta.id),
        !other_b@.contains_id(after_entry.meta.id),
    ensures
        final(register).wf(),
        final(register).entries@ == remove_ids(old(register).entries@, before_ids@).push(
            after_entry,
        ),
        final(register).contains_id(after_entry.meta.id),
        forall|i: int|
            0 <= i < before_ids@.len() && (#[trigger] before_ids@[i]) != after_entry.meta.id
                ==> !final(register).contains_id(before_ids@[i]),
        disjoint_registers(*final(register), other_a@),
        disjoint_registers(*final(register), other_b@),
{
    register.remove_segments(before_ids);
    assert(!register.contains_id(after_entry.meta.id));
    let ghost mid = *register;
    register.add_segment_entry(after_entry);
    proof {
        assert forall|x: SegmentId| #[trigger]
            id_in_entries(register.entries@, x) implies !id_in_entries(other_a@.entries@, x) by {
            assert(register.contains_id(x));
            if x != after_entry.meta.id {
                assert(mid.contains_id(x));
                assert(old(register).contains_id(x));
                assert(id_in_entries(old(register).entries@, x));
            } else {
                assert(!other_a@.contains_id(x));
            }
        }
        assert forall|x: SegmentId| #[trigger]
            id_in_entries(register.entries@, x) implies !id_in_entries(other_b@.entries@, x) by {
            assert(register.contains_id(x));
            if x != after_entry.meta.id {
                assert(mid.contains_id(x));
                assert(old(register).contains_id(x));
                assert(id_in_entries(old(register).entries@, x));
            } else {
                assert(!other_b@.contains_id(x));
            }
        }
    }
}

} // verus!
