use nrt_index::{SegmentEntry, SegmentId, SegmentMeta, SegmentRegister};

fn entry(id: u128, num_docs: u32) -> SegmentEntry {
    SegmentEntry::new(SegmentMeta::new(SegmentId::new(id), num_docs), 0)
}

#[test]
fn test_register_add_and_get() {
    let mut register = SegmentRegister::new();
    register.add_segment_entry(entry(1, 10));
    register.add_segment_entry(entry(2, 20));
    assert_eq!(register.get(SegmentId::new(1)), Some(entry(1, 10)));
    assert_eq!(register.get(SegmentId::new(3)), None);
    assert_eq!(register.len(), 2);
}

#[test]
fn test_register_add_replaces_same_id() {
    let mut register = SegmentRegister::new();
    register.add_segment_entry(entry(1, 10));
    register.add_segment_entry(entry(2, 20));
    register.add_segment_entry(entry(1, 99));
    // Replacement keeps the insertion position and the length.
    assert_eq!(register.segment_entries(), vec![entry(1, 99), entry(2, 20)]);
}

#[test]
fn test_register_remove() {
    let mut register = SegmentRegister::new();
    register.add_segment_entry(entry(1, 10));
    register.add_segment_entry(entry(2, 20));
    register.remove_segment(SegmentId::new(1));
    assert!(!register.contains(SegmentId::new(1)));
    assert!(register.contains(SegmentId::new(2)));
    // Removing an absent id is a no-op.
    register.remove_segment(SegmentId::new(7));
    assert_eq!(register.len(), 1);
}

#[test]
fn test_register_contains_all() {
    let mut register = SegmentRegister::new();
    register.add_segment_entry(entry(1, 10));
    register.add_segment_entry(entry(2, 20));
    assert!(register.contains_all(&vec![SegmentId::new(1), SegmentId::new(2)]));
    assert!(register.contains_all(&Vec::new()));
    assert!(!register.contains_all(&vec![SegmentId::new(1), SegmentId::new(3)]));
}

#[test]
fn test_register_mergeable_excludes_in_merge() {
    let mut register = SegmentRegister::new();
    register.add_segment_entry(entry(1, 10));
    register.add_segment_entry(entry(2, 20));
    register.add_segment_entry(entry(3, 30));
    let in_merge = vec![SegmentId::new(2)];
    let mergeable = register.get_mergeable_segments(&in_merge);
    assert_eq!(
        mergeable,
        vec![
            SegmentMeta::new(SegmentId::new(1), 10),
            SegmentMeta::new(SegmentId::new(3), 30)
        ]
    );
}

#[test]
fn test_register_from_metas_enumeration() {
    let metas = vec![
        SegmentMeta::new(SegmentId::new(5), 1),
        SegmentMeta::new(SegmentId::new(6), 2),
    ];
    let register = SegmentRegister::from_metas(&metas, 11);
    assert_eq!(register.segment_metas(), metas);
    assert_eq!(register.segment_ids(), vec![SegmentId::new(5), SegmentId::new(6)]);
    for e in register.segment_entries() {
        assert_eq!(e.delete_cursor, 11);
    }
}

#[test]
fn test_register_clear() {
    let mut register = SegmentRegister::new();
    register.add_segment_entry(entry(1, 10));
    register.clear();
    assert_eq!(register.len(), 0);
    assert!(register.segment_entries().is_empty());
}
