use nrt_index::{
    FilePath, IndexReader, MetaFileIndexReader, NRTReader, NrtWriter, RamDirectory, SegmentId,
    SegmentManager, SegmentMeta,
};

fn path(name: &str) -> FilePath {
    FilePath::new(name.as_bytes().to_vec())
}

fn meta(id: u128, num_docs: u32) -> SegmentMeta {
    SegmentMeta::new(SegmentId::new(id), num_docs)
}

#[test]
fn test_soft_commit() {
    // A soft commit makes one freshly added document visible to a
    // near-real-time reader without any durable commit.
    let durable = RamDirectory::create();
    let mut writer = NrtWriter::create(durable);
    let mut reader = IndexReader::NRT(NRTReader::new());
    reader.reload(&writer.manager, &Vec::new());
    assert_eq!(reader.searcher().num_docs(), 0);

    writer.add_segment(&path("seg1"), b"apple".to_vec(), meta(1, 1), 0);
    writer.soft_commit();
    reader.reload(&writer.manager, &Vec::new());
    assert_eq!(reader.searcher().num_docs(), 1);
}

#[test]
fn test_soft_commit_not_durable() {
    // After a soft commit, dropping the writer and the tiered directory and
    // reopening from the durable store alone shows nothing.
    let durable = RamDirectory::create();
    let mut writer = NrtWriter::create(durable);
    writer.add_segment(&path("seg1"), b"apple".to_vec(), meta(1, 1), 0);
    writer.soft_commit();

    let durable_back = writer.directory.into_inner();
    assert!(!durable_back.file_exists(&path("seg1")));
    // No hard commit ever ran, so the persisted segment meta is empty.
    let persisted_metas: Vec<SegmentMeta> = Vec::new();
    let mut reader = IndexReader::FromMetaFile(MetaFileIndexReader::new());
    reader.reload(&SegmentManager::new(), &persisted_metas);
    assert_eq!(reader.searcher().num_docs(), 0);
}

#[test]
fn test_repeated_soft_commits_accumulate() {
    let durable = RamDirectory::create();
    let mut writer = NrtWriter::create(durable);
    for i in 0..4u32 {
        let name = format!("seg{}", i);
        writer.add_segment(&path(&name), b"qwerty".to_vec(), meta(i as u128 + 1, 1), 0);
        writer.soft_commit();
    }
    let mut reader = NRTReader::new();
    reader.reload(&writer.manager);
    assert_eq!(reader.searcher().num_docs(), 4);
    let (committed, soft, uncommitted) = writer.manager.grouped_segment_entries();
    assert!(committed.is_empty());
    assert!(uncommitted.is_empty());
    assert_eq!(soft.len(), 4);
}

#[test]
fn test_hard_commit_promotes() {
    let durable = RamDirectory::create();
    let mut writer = NrtWriter::create(durable);
    for i in 0..4u32 {
        let name = format!("seg{}", i);
        writer.add_segment(&path(&name), b"qwerty".to_vec(), meta(i as u128 + 1, 1), 0);
        writer.soft_commit();
    }
    let metas = writer.commit().unwrap();
    let total: u64 = metas.iter().map(|m| m.num_docs as u64).sum();
    assert_eq!(total, 4);

    let (committed, soft, uncommitted) = writer.manager.grouped_segment_entries();
    assert!(soft.is_empty());
    assert!(uncommitted.is_empty());
    let committed_total: u64 = committed.iter().map(|e| e.meta().num_docs as u64).sum();
    assert_eq!(committed_total, 4);

    // The durable store now holds every segment file.
    let durable_back = writer.directory.into_inner();
    for i in 0..4u32 {
        let name = format!("seg{}", i);
        assert_eq!(durable_back.open_read(&path(&name)).unwrap(), b"qwerty".to_vec());
    }
}

#[test]
fn test_reopen_after_hard_commit() {
    let durable = RamDirectory::create();
    let mut writer = NrtWriter::create(durable);
    writer.add_segment(&path("seg1"), b"apple".to_vec(), meta(1, 2), 0);
    writer.soft_commit();
    let metas = writer.commit().unwrap();

    let durable_back = writer.directory.into_inner();
    let reopened = NrtWriter::open(durable_back, metas.clone(), 0);
    let mut reader = IndexReader::FromMetaFile(MetaFileIndexReader::new());
    reader.reload(&reopened.manager, &metas);
    assert_eq!(reader.searcher().num_docs(), 2);
}

#[test]
fn test_commit_drops_empty_segments() {
    let durable = RamDirectory::create();
    let mut writer = NrtWriter::create(durable);
    writer.add_segment(&path("a"), b"x".to_vec(), meta(1, 0), 0);
    writer.add_segment(&path("b"), b"y".to_vec(), meta(2, 3), 0);
    let metas = writer.commit().unwrap();
    assert_eq!(metas, vec![meta(2, 3)]);
}

#[test]
fn test_rollback_clears_all_tiers() {
    let durable = RamDirectory::create();
    let mut writer = NrtWriter::create(durable);
    writer.add_segment(&path("a"), b"x".to_vec(), meta(1, 1), 0);
    writer.soft_commit();
    writer.add_segment(&path("b"), b"y".to_vec(), meta(2, 1), 0);
    writer.rollback();
    let (committed, soft, uncommitted) = writer.manager.grouped_segment_entries();
    assert!(committed.is_empty());
    assert!(soft.is_empty());
    assert!(uncommitted.is_empty());
    // The payload files are untouched: file cleanup is not the manager's job.
    assert!(writer.directory.file_exists(&path("a")));
}

#[test]
fn test_index_reader_facade_multiplexes() {
    let mut manager = SegmentManager::new();
    manager.add_segment(nrt_index::SegmentEntry::new(meta(1, 5), 0));
    let persisted = vec![meta(9, 7), meta(10, 1)];

    let mut nrt = IndexReader::NRT(NRTReader::new());
    nrt.reload(&manager, &persisted);
    assert_eq!(nrt.searcher().num_docs(), 5);

    let mut from_meta = IndexReader::FromMetaFile(MetaFileIndexReader::new());
    from_meta.reload(&manager, &persisted);
    assert_eq!(from_meta.searcher().num_docs(), 8);
    assert_eq!(from_meta.searcher().segment_metas(), persisted);
}

#[test]
fn test_searcher_counts_exactly() {
    let mut reader = NRTReader::new();
    let mut manager = SegmentManager::new();
    manager.add_segment(nrt_index::SegmentEntry::new(meta(1, 3), 0));
    manager.add_segment(nrt_index::SegmentEntry::new(meta(2, 0), 0));
    manager.add_segment(nrt_index::SegmentEntry::new(meta(3, 4), 0));
    reader.reload(&manager);
    assert_eq!(reader.searcher().num_docs(), 7);
}
