use vstd::prelude::*;

verus! {

/// Opaque 128-bit identifier of a segment, compared by value.
#[derive(Clone, Copy, PartialEq, Eq, Structural, Hash, Debug)]
pub struct SegmentId {
    pub id: u128,
}

impl SegmentId {
    pub fn new(id: u128) -> (r: SegmentId)
        ensures
            r.id == id,
    {
        SegmentId { id }
    }
}

/// Metadata describing a segment on disk: its identifier and the number of
/// documents it holds. Immutable after creation.
#[derive(Clone, Copy, PartialEq, Eq, Structural, Debug)]
pub struct SegmentMeta {
    pub id: SegmentId,
    pub num_docs: u32,
}

impl SegmentMeta {
    pub fn new(id: SegmentId, num_docs: u32) -> (r: SegmentMeta)
        ensures
            r.id == id,
            r.num_docs == num_docs,
    {
        SegmentMeta { id, num_docs }
    }
}

/// A runtime record pairing a segment's metadata with a delete cursor: a
/// monotonically advancing position into the stream of tombstones that apply
/// to the segment. Mutated only by replacement.
#[derive(Clone, Copy, PartialEq, Eq, Structural, Debug)]
pub struct SegmentEntry {
    pub meta: SegmentMeta,
    pub delete_cursor: u64,
}

impl SegmentEntry {
    pub fn new(meta: SegmentMeta, delete_cursor: u64) -> (r: SegmentEntry)
        ensures
            r.meta == meta,
            r.delete_cursor == delete_cursor,
    {
        SegmentEntry { meta, delete_cursor }
    }

    pub fn segment_id(&self) -> (r: SegmentId)
        ensures
            r == self.meta.id,
    {
        self.meta.id
    }

    pub fn meta(&self) -> (r: SegmentMeta)
        ensures
            r == self.meta,
    {
        self.meta
    }
}

} // verus!
