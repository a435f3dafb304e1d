use vstd::prelude::*;
use vstd::pervasive::unreached;

use crate::segment::{SegmentEntry, SegmentId, SegmentMeta};

verus! {

/// The segment ids of a sequence of entries, in the same order.
pub open spec fn entry_ids(s: Seq<SegmentEntry>) -> Seq<SegmentId> {
    s.map_values(|e: SegmentEntry| e.meta.id)
}

/// The metadata of a sequence of entries, in the same order.
pub open spec fn entry_metas(s: Seq<SegmentEntry>) -> Seq<SegmentMeta> {
    s.map_values(|e: SegmentEntry| e.meta)
}

/// True when some entry of `s` carries the id.
pub open spec fn id_in_entries(s: Seq<SegmentEntry>, id: SegmentId) -> bool {
    exists|i: int| 0 <= i < s.len() && s[i].meta.id == id
}

/// True when no two entries of `s` share a segment id.
pub open spec fn unique_entry_ids(s: Seq<SegmentEntry>) -> bool {
    forall|i: int, j: int|
        0 <= i < j < s.len() ==> s[i].meta.id != s[j].meta.id
}

/// True when no two metas of `s` share a segment id.
pub open spec fn unique_meta_ids(s: Seq<SegmentMeta>) -> bool {
    forall|i: int, j: int| 0 <= i < j < s.len() ==> s[i].id != s[j].id
}

/// The entries of `s` whose id is not listed in `ids`, in order.
pub open spec fn remove_ids(s: Seq<SegmentEntry>, ids: Seq<SegmentId>) -> Seq<SegmentEntry>
    decreases s.len(),
{
    if s.len() == 0 {
        Seq::empty()
    } else {
        let rest = remove_ids(s.drop_last(), ids);
        if ids.contains(s.last().meta.id) {
            rest
        } else {
            rest.push(s.last())
        }
    }
}

/// The metadata of the entries of `s` whose id is not listed in `excl`, in order.
pub open spec fn mergeable_metas(s: Seq<SegmentEntry>, excl: Seq<SegmentId>) -> Seq<SegmentMeta> {
    entry_metas(remove_ids(s, excl))
}

pub proof fn lemma_remove_ids(s: Seq<SegmentEntry>, ids: Seq<SegmentId>)
    ensures
        remove_ids(s, ids).len() <= s.len(),
        forall|k: int|
            0 <= k < remove_ids(s, ids).len() ==> s.contains(#[trigger] remove_ids(s, ids)[k])
                && !ids.contains(remove_ids(s, ids)[k].meta.id),
        unique_entry_ids(s) ==> unique_entry_ids(remove_ids(s, ids)),
        forall|x: SegmentId|
            #[trigger] id_in_entries(remove_ids(s, ids), x) <==> (id_in_entries(s, x)
                && !ids.contains(x)),
    decreases s.len(),
{
    if s.len() == 0 {
        assert forall|x: SegmentId| #[trigger]
            id_in_entries(remove_ids(s, ids), x) <==> (id_in_entries(s, x) && !ids.contains(x)) by {
            assert(!id_in_entries(remove_ids(s, ids), x));
            assert(!id_in_entries(s, x));
        }
    } else {
        let pre = s.drop_last();
        lemma_remove_ids(pre, ids);
        let rest = remove_ids(pre, ids);
        assert forall|k: int|
            0 <= k < remove_ids(s, ids).len() implies s.contains(
            #[trigger] remove_ids(s, ids)[k],
        ) && !ids.contains(remove_ids(s, ids)[k].meta.id) by {
            if k < rest.len() {
                assert(pre.contains(rest[k]));
                let j = choose|j: int| 0 <= j < pre.len() && pre[j] == rest[k];
                assert(s[j] == rest[k]);
            } else {
                assert(remove_ids(s, ids)[k] == s.last());
                assert(s[s.len() - 1] == s.last());
            }
        }
        if unique_entry_ids(s) {
            assert(unique_entry_ids(pre));
            if !ids.contains(s.last().meta.id) {
                assert forall|i: int, j: int|
                    0 <= i < j < remove_ids(s, ids).len() implies remove_ids(s, ids)[i].meta.id
                    != remove_ids(s, ids)[j].meta.id by {
                    if j == rest.len() {
                        assert(pre.contains(rest[i]));
                        let m = choose|m: int| 0 <= m < pre.len() && pre[m] == rest[i];
                        assert(s[m] == rest[i]);
                        assert(s[m].meta.id != s[s.len() - 1].meta.id);
                    }
                }
            }
        }
        assert forall|x: SegmentId| #[trigger]
            id_in_entries(remove_ids(s, ids), x) <==> (id_in_entries(s, x) && !ids.contains(x)) by {
            if id_in_entries(remove_ids(s, ids), x) {
                let k = choose|k: int|
                    0 <= k < remove_ids(s, ids).len() && remove_ids(s, ids)[k].meta.id == x;
                if k < rest.len() {
                    assert(remove_ids(s, ids)[k] == rest[k]);
                    assert(rest[k].meta.id == x);
                    assert(id_in_entries(rest, x));
                    assert(id_in_entries(pre, x) && !ids.contains(x));
                    let j = choose|j: int| 0 <= j < pre.len() && pre[j].meta.id == x;
                    assert(s[j].meta.id == x);
                } else {
                    assert(!ids.contains(s.last().meta.id));
                    assert(remove_ids(s, ids)[k] == s.last());
                    assert(s[s.len() - 1].meta.id == x);
                }
            }
            if id_in_entries(s, x) && !ids.contains(x) {
                let j = choose|j: int| 0 <= j < s.len() && s[j].meta.id == x;
                if j < s.len() - 1 {
                    assert(pre[j].meta.id == x);
                    assert(id_in_entries(pre, x));
                    assert(id_in_entries(rest, x));
                    let k = choose|k: int| 0 <= k < rest.len() && rest[k].meta.id == x;
                    assert(remove_ids(s, ids)[k] == rest[k]);
                    assert(remove_ids(s, ids)[k].meta.id == x);
                } else {
                    assert(s.last().meta.id == x);
                    assert(!ids.contains(s.last().meta.id));
                    let n = remove_ids(s, ids).len();
                    assert(remove_ids(s, ids)[n - 1] == s.last());
                    assert(remove_ids(s, ids)[n - 1].meta.id == x);
                }
            }
        }
    }
}

/// Concatenating two lists of entries with unique, mutually disjoint ids
/// yields a list with unique ids, holding exactly the ids of both.
pub proof fn lemma_unique_concat(a: Seq<SegmentEntry>, b: Seq<SegmentEntry>)
    requires
        unique_entry_ids(a),
        unique_entry_ids(b),
        forall|x: SegmentId|
            #![trigger id_in_entries(a, x)]
            #![trigger id_in_entries(b, x)]
            !(id_in_entries(a, x) && id_in_entries(b, x)),
    ensures
        unique_entry_ids(a + b),
        forall|x: SegmentId|
            #[trigger] id_in_entries(a + b, x) <==> (id_in_entries(a, x) || id_in_entries(b, x)),
{
    assert forall|i: int, j: int|
        0 <= i < j < (a + b).len() implies (a + b)[i].meta.id != (a + b)[j].meta.id by {
        if i < a.len() && j >= a.len() {
            assert((a + b)[i] == a[i]);
            assert((a + b)[j] == b[j - a.len()]);
            if a[i].meta.id == b[j - a.len()].meta.id {
                assert(id_in_entries(a, a[i].meta.id));
                assert(id_in_entries(b, a[i].meta.id));
            }
        }
    }
    assert forall|x: SegmentId| #[trigger]
        id_in_entries(a + b, x) <==> (id_in_entries(a, x) || id_in_entries(b, x)) by {
        if id_in_entries(a + b, x) {
            let i = choose|i: int| 0 <= i < (a + b).len() && (a + b)[i].meta.id == x;
            if i < a.len() {
                assert(a[i].meta.id == x);
            } else {
                assert(b[i - a.len()].meta.id == x);
            }
        }
        if id_in_entries(a, x) {
            let i = choose|i: int| 0 <= i < a.len() && a[i].meta.id == x;
            assert((a + b)[i].meta.id == x);
        }
        if id_in_entries(b, x) {
            let i = choose|i: int| 0 <= i < b.len() && b[i].meta.id == x;
            assert((a + b)[a.len() + i].meta.id == x);
        }
    }
}

/// An ordered mapping from segment id to segment entry. Insertion order is
/// preserved for deterministic enumeration; no two entries share an id.
#[derive(Debug)]
pub struct SegmentRegister {
    pub entries: Vec<SegmentEntry>,
}

impl SegmentRegister {
    /// Invariant: no two entries share a segment id.
    pub open spec fn wf(self) -> bool {
        unique_entry_ids(self.entries@)
    }

    /// True when the register holds an entry with the given id.
    pub open spec fn contains_id(self, id: SegmentId) -> bool {
        id_in_entries(self.entries@, id)
    }

    /// The entry carrying the given id (meaningful under `wf` and `contains_id`).
    pub open spec fn entry_for(self, id: SegmentId) -> SegmentEntry {
        self.entries@[choose|i: int|
            0 <= i < self.entries@.len() && self.entries@[i].meta.id == id]
    }

    /// True when every id of `ids` is present.
    pub open spec fn contains_all_ids(self, ids: Seq<SegmentId>) -> bool {
        forall|i: int| 0 <= i < ids.len() ==> self.contains_id(#[trigger] ids[i])
    }

    pub fn new() -> (r: SegmentRegister)
        ensures
            r.entries@ == Seq::<SegmentEntry>::empty(),
            r.wf(),
    {
        SegmentRegister { entries: Vec::new() }
    }

    /// Rebuilds a register from on-disk metadata, giving every entry the
    /// delete-cursor snapshot `delete_cursor`.
    pub fn from_metas(metas: &Vec<SegmentMeta>, delete_cursor: u64) -> (r: SegmentRegister)
        requires
            unique_meta_ids(metas@),
        ensures
            r.wf(),
            r.entries@.len() == metas@.len(),
            forall|i: int|
                0 <= i < metas@.len() ==> (#[trigger] r.entries@[i]).meta == metas@[i]
                    && r.entries@[i].delete_cursor == delete_cursor,
    {
        let mut entries: Vec<SegmentEntry> = Vec::new();
        let mut i: usize = 0;
        while i < metas.len()
            invariant
                i <= metas@.len(),
                entries@.len() == i,
                unique_meta_ids(metas@),
                forall|k: int|
                    0 <= k < i ==> (#[trigger] entries@[k]).meta == metas@[k]
                        && entries@[k].delete_cursor == delete_cursor,
            decreases metas@.len() - i,
        {
            entries.push(SegmentEntry { meta: metas[i], delete_cursor });
            i = i + 1;
        }
        SegmentRegister { entries }
    }

    fn position_of(&self, id: SegmentId) -> (r: Option<usize>)
        ensures
            match r {
                Some(i) => i < self.entries@.len() && self.entries@[i as int].meta.id == id,
                None => !self.contains_id(id),
            },
    {
        let mut i: usize = 0;
        while i < self.entries.len()
            invariant
                i <= self.entries@.len(),
                forall|k: int| 0 <= k < i ==> (#[trigger] self.entries@[k]).meta.id != id,
            decreases self.entries@.len() - i,
        {
            if self.entries[i].meta.id == id {
                return Some(i);
            }
            i = i + 1;
        }
        None
    }

    /// True when the register holds an entry with the given id.
    pub fn contains(&self, id: SegmentId) -> (r: bool)
        ensures
            r == self.contains_id(id),
    {
        self.position_of(id).is_some()
    }

    /// Retrieves the entry with the given id, or `None` when absent.
    pub fn get(&self, id: SegmentId) -> (r: Option<SegmentEntry>)
        requires
            self.wf(),
        ensures
            r == if self.contains_id(id) {
                Some(self.entry_for(id))
            } else {
                None::<SegmentEntry>
            },
            r matches Some(e) ==> e.meta.id == id && self.entries@.contains(e),
    {
        match self.position_of(id) {
            Some(i) => {
                proof {
                    let j = choose|j: int|
                        0 <= j < self.entries@.len() && self.entries@[j].meta.id == id;
                    assert(j == i as int);
                }
                Some(self.entries[i])
            },
            None => None,
        }
    }

    /// Inserts the entry, replacing any entry that already carries its id.
    /// Idempotent on identical entries.
    pub fn add_segment_entry(&mut self, entry: SegmentEntry)
        requires
            old(self).wf(),
        ensures
            final(self).wf(),
            old(self).contains_id(entry.meta.id) ==> exists|i: int|
                0 <= i < old(self).entries@.len() && (#[trigger] old(self).entries@[i]).meta.id
                    == entry.meta.id && final(self).entries@ == old(self).entries@.update(i, entry),
            !old(self).contains_id(entry.meta.id) ==> final(self).entries@ == old(
                self,
            ).entries@.push(entry),
            forall|x: SegmentId|
                #[trigger] final(self).contains_id(x) <==> (old(self).contains_id(x) || x
                    == entry.meta.id),
    {
        let ghost pre = self.entries@;
        match self.position_of(entry.meta.id) {
            Some(i) => {
                self.entries[i] = entry;
                proof {
                    assert(self.entries@ == pre.update(i as int, entry));
                    assert forall|x: SegmentId| #[trigger]
                        final(self).contains_id(x) <==> (id_in_entries(pre, x) || x
                            == entry.meta.id) by {
                        if id_in_entries(self.entries@, x) {
                            let k = choose|k: int|
                                0 <= k < self.entries@.len() && self.entries@[k].meta.id == x;
                            if k != i as int {
                                assert(pre[k].meta.id == x);
                            }
                        }
                        if id_in_entries(pre, x) && x != entry.meta.id {
                            let k = choose|k: int| 0 <= k < pre.len() && pre[k].meta.id == x;
                            assert(self.entries@[k].meta.id == x);
                        }
                        if x == entry.meta.id {
                            assert(self.entries@[i as int].meta.id == x);
                        }
                    }
                }
            },
            None => {
                self.entries.push(entry);
                proof {
                    assert forall|x: SegmentId| #[trigger]
                        final(self).contains_id(x) <==> (id_in_entries(pre, x) || x
                            == entry.meta.id) by {
                        if id_in_entries(self.entries@, x) {
                            let k = choose|k: int|
                                0 <= k < self.entries@.len() && self.entries@[k].meta.id == x;
                            if k < pre.len() {
                                assert(pre[k].meta.id == x);
                            }
                        }
                        if id_in_entries(pre, x) {
                            let k = choose|k: int| 0 <= k < pre.len() && pre[k].meta.id == x;
                            assert(self.entries@[k].meta.id == x);
                        }
                        if x == entry.meta.id {
                            assert(self.entries@[pre.len() as int].meta.id == x);
                        }
                    }
                }
            },
        }
    }

    /// Removes the entry with the given id; no-op when absent.
    pub fn remove_segment(&mut self, id: SegmentId)
        requires
            old(self).wf(),
        ensures
            final(self).wf(),
            old(self).contains_id(id) ==> exists|i: int|
                0 <= i < old(self).entries@.len() && (#[trigger] old(self).entries@[i]).meta.id
                    == id && final(self).entries@ == old(self).entries@.remove(i),
            !old(self).contains_id(id) ==> final(self).entries@ == old(self).entries@,
            !final(self).contains_id(id),
            forall|x: SegmentId|
                x != id ==> ((#[trigger] final(self).contains_id(x)) <==> old(self).contains_id(
                    x,
                )),
    {
        let ghost pre = self.entries@;
        match self.position_of(id) {
            Some(i) => {
                self.entries.remove(i);
                proof {
                    assert(self.entries@ == pre.remove(i as int));
                    assert forall|k: int, l: int|
                        0 <= k < l < self.entries@.len() implies self.entries@[k].meta.id
                        != self.entries@[l].meta.id by {
                        let ko: int = if k < i as int {
                            k
                        } else {
                            k + 1
                        };
                        let lo: int = if l < i as int {
                            l
                        } else {
                            l + 1
                        };
                        assert(self.entries@[k] == pre[ko]);
                        assert(self.entries@[l] == pre[lo]);
                    }
                    assert forall|x: SegmentId| true implies ((#[trigger] id_in_entries(
                        self.entries@,
                        x,
                    )) <==> (id_in_entries(pre, x) && x != id)) by {
                        if id_in_entries(self.entries@, x) {
                            let k = choose|k: int|
                                0 <= k < self.entries@.len() && self.entries@[k].meta.id == x;
                            let ko: int = if k < i as int {
                                k
                            } else {
                                k + 1
                            };
                            assert(pre[ko].meta.id == x);
                            assert(ko != i as int);
                        }
                        if id_in_entries(pre, x) && x != id {
                            let k = choose|k: int| 0 <= k < pre.len() && pre[k].meta.id == x;
                            let kn: int = if k < i as int {
                                k
                            } else {
                                k - 1
                            };
                            assert(self.entries@[kn].meta.id == x);
                        }
                    }
                }
            },
            None => {},
        }
    }

    /// Removes every entry whose id is listed in `ids`, preserving the order
    /// of the remaining entries.
    pub fn remove_segments(&mut self, ids: &Vec<SegmentId>)
        requires
            old(self).wf(),
        ensures
            final(self).wf(),
            final(self).entries@ == remove_ids(old(self).entries@, ids@),
            forall|x: SegmentId|
                #[trigger] final(self).contains_id(x) <==> (old(self).contains_id(x)
                    && !ids@.contains(x)),
    {
        let mut kept: Vec<SegmentEntry> = Vec::new();
        let mut i: usize = 0;
        while i < self.entries.len()
            invariant
                i <= self.entries@.len(),
                kept@ == remove_ids(self.entries@.take(i as int), ids@),
            decreases self.entries@.len() - i,
        {
            let e = self.entries[i];
            proof {
                assert(self.entries@.take(i + 1).drop_last() =~= self.entries@.take(i as int));
                assert(self.entries@.take(i + 1).last() == e);
            }
            if !id_in_list(ids, e.meta.id) {
                kept.push(e);
            }
            i = i + 1;
        }
        proof {
            assert(self.entries@.take(self.entries@.len() as int) =~= self.entries@);
            lemma_remove_ids(self.entries@, ids@);
        }
        self.entries = kept;
    }

    /// Empties the register.
    pub fn clear(&mut self)
        ensures
            final(self).entries@ == Seq::<SegmentEntry>::empty(),
            final(self).wf(),
    {
        self.entries.clear();
    }

    /// True iff every id of `ids` is present in the register.
    pub fn contains_all(&self, ids: &Vec<SegmentId>) -> (r: bool)
        ensures
            r == self.contains_all_ids(ids@),
    {
        let mut i: usize = 0;
        while i < ids.len()
            invariant
                i <= ids@.len(),
                forall|k: int| 0 <= k < i ==> self.contains_id(#[trigger] ids@[k]),
            decreases ids@.len() - i,
        {
            if !self.contains(ids[i]) {
                return false;
            }
            i = i + 1;
        }
        true
    }

    /// The metadata of every entry whose id is not in the exclusion list
    /// `in_merge`, in insertion order.
    pub fn get_mergeable_segments(&self, in_merge: &Vec<SegmentId>) -> (r: Vec<SegmentMeta>)
        ensures
            r@ == mergeable_metas(self.entries@, in_merge@),
    {
        let mut metas: Vec<SegmentMeta> = Vec::new();
        let mut i: usize = 0;
        while i < self.entries.len()
            invariant
                i <= self.entries@.len(),
                metas@ == mergeable_metas(self.entries@.take(i as int), in_merge@),
            decreases self.entries@.len() - i,
        {
            let e = self.entries[i];
            proof {
                assert(self.entries@.take(i + 1).drop_last() =~= self.entries@.take(i as int));
                assert(self.entries@.take(i + 1).last() == e);
                assert(entry_metas(remove_ids(self.entries@.take(i as int), in_merge@).push(e))
                    =~= entry_metas(remove_ids(self.entries@.take(i as int), in_merge@)).push(
                    e.meta,
                ));
            }
            if !id_in_list(in_merge, e.meta.id) {
                metas.push(e.meta);
            }
            i = i + 1;
        }
        proof {
            assert(self.entries@.take(self.entries@.len() as int) =~= self.entries@);
        }
        metas
    }

    /// The entries in insertion order.
    pub fn segment_entries(&self) -> (r: Vec<SegmentEntry>)
        ensures
            r@ == self.entries@,
    {
        let mut r: Vec<SegmentEntry> = Vec::new();
        let mut i: usize = 0;
        while i < self.entries.len()
            invariant
                i <= self.entries@.len(),
                r@ == self.entries@.take(i as int),
            decreases self.entries@.len() - i,
        {
            proof {
                assert(self.entries@.take(i + 1) =~= self.entries@.take(i as int).push(
                    self.entries@[i as int],
                ));
            }
            r.push(self.entries[i]);
            i = i + 1;
        }
        proof {
            assert(self.entries@.take(self.entries@.len() as int) =~= self.entries@);
        }
        r
    }

    /// The metadata of every entry, in insertion order.
    pub fn segment_metas(&self) -> (r: Vec<SegmentMeta>)
        ensures
            r@ == entry_metas(self.entries@),
    {
        let mut r: Vec<SegmentMeta> = Vec::new();
        let mut i: usize = 0;
        while i < self.entries.len()
            invariant
                i <= self.entries@.len(),
                r@ == entry_metas(self.entries@.take(i as int)),
            decreases self.entries@.len() - i,
        {
            proof {
                assert(entry_metas(self.entries@.take(i + 1)) =~= entry_metas(
                    self.entries@.take(i as int),
                ).push(self.entries@[i as int].meta));
            }
            r.push(self.entries[i].meta);
            i = i + 1;
        }
        proof {
            assert(self.entries@.take(self.entries@.len() as int) =~= self.entries@);
        }
        r
    }

    /// The segment ids of every entry, in insertion order.
    pub fn segment_ids(&self) -> (r: Vec<SegmentId>)
        ensures
            r@ == entry_ids(self.entries@),
    {
        let mut r: Vec<SegmentId> = Vec::new();
        let mut i: usize = 0;
        while i < self.entries.len()
            invariant
                i <= self.entries@.len(),
                r@ == entry_ids(self.entries@.take(i as int)),
            decreases self.entries@.len() - i,
        {
            proof {
                assert(entry_ids(self.entries@.take(i + 1)) =~= entry_ids(
                    self.entries@.take(i as int),
                ).push(self.entries@[i as int].meta.id));
            }
            r.push(self.entries[i].meta.id);
            i = i + 1;
        }
        proof {
            assert(self.entries@.take(self.entries@.len() as int) =~= self.entries@);
        }
        r
    }

    /// The entries carrying the given ids, in the order the ids are given.
    pub fn collect_entries(&self, ids: &Vec<SegmentId>) -> (r: Vec<SegmentEntry>)
        requires
            self.wf(),
            self.contains_all_ids(ids@),
        ensures
            r@.len() == ids@.len(),
            forall|i: int|
                0 <= i < ids@.len() ==> r@[i] == self.entry_for(#[trigger] ids@[i]),
    {
        let mut r: Vec<SegmentEntry> = Vec::new();
        let mut i: usize = 0;
        while i < ids.len()
            invariant
                i <= ids@.len(),
                self.wf(),
                self.contains_all_ids(ids@),
                r@.len() == i,
                forall|k: int| 0 <= k < i ==> r@[k] == self.entry_for(#[trigger] ids@[k]),
            decreases ids@.len() - i,
        {
            match self.get(ids[i]) {
                Some(e) => {
                    r.push(e);
                },
                None => {
                    proof {
                        assert(self.contains_id(ids@[i as int]));
                    }
                    unreached()
                },
            }
            i = i + 1;
        }
        r
    }

    /// The number of entries.
    pub fn len(&self) -> (r: usize)
        ensures
            r == self.entries@.len(),
    {
        self.entries.len()
    }
}

/// True iff `ids` holds `id`, by a linear scan.
fn id_in_list(ids: &Vec<SegmentId>, id: SegmentId) -> (r: bool)
    ensures
        r == ids@.contains(id),
{
    let mut i: usize = 0;
    while i < ids.len()
        invariant
            i <= ids@.len(),
            forall|k: int| 0 <= k < i ==> (#[trigger] ids@[k]) != id,
        decreases ids@.len() - i,
    {
        if ids[i] == id {
            return true;
        }
        i = i + 1;
    }
    false
}

} // verus!
