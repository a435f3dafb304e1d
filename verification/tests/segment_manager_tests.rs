use nrt_index::{
    IndexError, SegmentEntry, SegmentId, SegmentManager, SegmentMeta, SegmentsStatus,
};

fn entry(id: u128, num_docs: u32) -> SegmentEntry {
    SegmentEntry::new(SegmentMeta::new(SegmentId::new(id), num_docs), 0)
}

fn ids_of(entries: &[SegmentEntry]) -> Vec<SegmentId> {
    entries.iter().map(|e| e.segment_id()).collect()
}

#[test]
fn test_post_soft_commit_shape() {
    let mut manager = SegmentManager::new();
    manager.add_segment(entry(1, 10));
    manager.add_segment(entry(2, 20));
    let committed_in = vec![entry(3, 5), entry(4, 6)];
    let soft_in = vec![entry(5, 7)];
    manager.soft_commit(committed_in.clone(), soft_in.clone());
    let (committed, soft, uncommitted) = manager.grouped_segment_entries();
    assert!(committed.is_empty());
    assert!(uncommitted.is_empty());
    let mut expected = committed_in;
    expected.extend(soft_in);
    assert_eq!(soft, expected);
}

#[test]
fn test_post_commit_shape() {
    let mut manager = SegmentManager::new();
    manager.add_segment(entry(1, 10));
    manager.soft_commit(vec![entry(2, 4)], vec![entry(3, 9)]);
    let committed_in = vec![entry(7, 1), entry(8, 2), entry(9, 3)];
    manager.commit(committed_in.clone());
    let (committed, soft, uncommitted) = manager.grouped_segment_entries();
    assert_eq!(committed, committed_in);
    assert!(soft.is_empty());
    assert!(uncommitted.is_empty());
}

#[test]
fn test_tier_disjointness() {
    let mut manager = SegmentManager::from_segments(
        vec![SegmentMeta::new(SegmentId::new(1), 3), SegmentMeta::new(SegmentId::new(2), 4)],
        0,
    );
    manager.add_segment(entry(3, 5));
    manager.add_segment(entry(4, 6));
    manager.soft_commit(vec![entry(5, 7)], vec![entry(6, 8)]);
    manager.add_segment(entry(7, 9));
    let (committed, soft, uncommitted) = manager.grouped_segment_entries();
    let committed_ids = ids_of(&committed);
    let soft_ids = ids_of(&soft);
    let uncommitted_ids = ids_of(&uncommitted);
    for id in &uncommitted_ids {
        assert!(!soft_ids.contains(id));
        assert!(!committed_ids.contains(id));
    }
    for id in &soft_ids {
        assert!(!committed_ids.contains(id));
    }
}

#[test]
fn test_end_merge_tier_preserved_uncommitted() {
    let mut manager = SegmentManager::new();
    manager.add_segment(entry(1, 10));
    manager.add_segment(entry(2, 20));
    manager.add_segment(entry(3, 30));
    let before = vec![SegmentId::new(1), SegmentId::new(2)];
    let merged = entry(9, 30);
    let status = manager.end_merge(&before, merged).unwrap();
    assert_eq!(status, SegmentsStatus::Uncommitted);
    let (committed, soft, uncommitted) = manager.grouped_segment_entries();
    assert!(committed.is_empty());
    assert!(soft.is_empty());
    let ids = ids_of(&uncommitted);
    assert!(ids.contains(&SegmentId::new(9)));
    assert!(!ids.contains(&SegmentId::new(1)));
    assert!(!ids.contains(&SegmentId::new(2)));
    assert!(ids.contains(&SegmentId::new(3)));
}

#[test]
fn test_end_merge_tier_preserved_committed() {
    let mut manager = SegmentManager::from_segments(
        vec![SegmentMeta::new(SegmentId::new(1), 3), SegmentMeta::new(SegmentId::new(2), 4)],
        0,
    );
    let before = vec![SegmentId::new(1), SegmentId::new(2)];
    let status = manager.end_merge(&before, entry(5, 7)).unwrap();
    assert_eq!(status, SegmentsStatus::Committed);
    let (committed, _, _) = manager.grouped_segment_entries();
    assert_eq!(ids_of(&committed), vec![SegmentId::new(5)]);
}

#[test]
fn test_mixed_tier_merge_rejected() {
    let mut manager =
        SegmentManager::from_segments(vec![SegmentMeta::new(SegmentId::new(1), 3)], 0);
    manager.add_segment(entry(2, 5));
    let before_state = manager.grouped_segment_entries();
    let result = manager.start_merge(&vec![SegmentId::new(1), SegmentId::new(2)]);
    assert!(matches!(result, Err(IndexError::InvalidArgument)));
    assert_eq!(manager.grouped_segment_entries(), before_state);
}

#[test]
fn test_end_merge_after_rollback() {
    let mut manager = SegmentManager::new();
    manager.add_segment(entry(1, 1));
    manager.add_segment(entry(2, 2));
    manager.add_segment(entry(3, 3));
    let before = vec![SegmentId::new(1), SegmentId::new(2), SegmentId::new(3)];
    let entries = manager.start_merge(&before).unwrap();
    assert_eq!(entries.len(), 3);
    manager.remove_all_segments();
    let result = manager.end_merge(&before, entry(4, 6));
    assert!(matches!(result, Err(IndexError::InvalidArgument)));
    let (committed, soft, uncommitted) = manager.grouped_segment_entries();
    assert!(committed.is_empty());
    assert!(soft.is_empty());
    assert!(uncommitted.is_empty());
}

#[test]
fn test_committed_metas_gc() {
    let mut manager = SegmentManager::new();
    manager.commit(vec![entry(1, 0), entry(2, 3), entry(3, 0), entry(4, 2)]);
    let metas = manager.committed_segment_metas();
    assert_eq!(
        metas,
        vec![SegmentMeta::new(SegmentId::new(2), 3), SegmentMeta::new(SegmentId::new(4), 2)]
    );
    let (committed, _, _) = manager.grouped_segment_entries();
    for e in &committed {
        assert!(e.meta().num_docs != 0);
    }
    assert_eq!(committed.len(), 2);
}

#[test]
fn test_committed_metas_keep_soft_committed() {
    let mut manager = SegmentManager::new();
    manager.soft_commit(vec![entry(1, 0)], vec![entry(2, 5)]);
    let metas = manager.committed_segment_metas();
    // The committed tier is empty after a soft commit; the soft-committed
    // metas follow it, and soft-committed entries are not garbage-collected.
    assert_eq!(
        metas,
        vec![SegmentMeta::new(SegmentId::new(1), 0), SegmentMeta::new(SegmentId::new(2), 5)]
    );
}

#[test]
fn test_get_mergeable_segments() {
    let mut manager =
        SegmentManager::from_segments(vec![SegmentMeta::new(SegmentId::new(1), 3)], 0);
    manager.add_segment(entry(2, 5));
    manager.add_segment(entry(3, 6));
    let in_merge = vec![SegmentId::new(2)];
    let (committed, soft, uncommitted) = manager.get_mergeable_segments(&in_merge);
    assert_eq!(committed, vec![SegmentMeta::new(SegmentId::new(1), 3)]);
    assert!(soft.is_empty());
    assert_eq!(uncommitted, vec![SegmentMeta::new(SegmentId::new(3), 6)]);
}

#[test]
fn test_start_merge_returns_entries_in_id_order() {
    let mut manager = SegmentManager::new();
    manager.add_segment(entry(1, 10));
    manager.add_segment(entry(2, 20));
    manager.add_segment(entry(3, 30));
    let entries = manager.start_merge(&vec![SegmentId::new(3), SegmentId::new(1)]).unwrap();
    assert_eq!(entries, vec![entry(3, 30), entry(1, 10)]);
}

#[test]
fn test_segment_entries_order() {
    let mut manager =
        SegmentManager::from_segments(vec![SegmentMeta::new(SegmentId::new(1), 3)], 7);
    manager.add_segment(entry(2, 5));
    let all = manager.segment_entries();
    // Uncommitted first, then soft committed, then committed.
    assert_eq!(ids_of(&all), vec![SegmentId::new(2), SegmentId::new(1)]);
    assert_eq!(all[1].delete_cursor, 7);
}
