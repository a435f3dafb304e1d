use nrt_index::{CacheDirectory, DirectoryError, FilePath, RamDirectory};

fn path(name: &str) -> FilePath {
    FilePath::new(name.as_bytes().to_vec())
}

#[test]
fn test_ram_directory_basics() {
    let mut dir = RamDirectory::create();
    assert!(!dir.file_exists(&path("a")));
    assert!(matches!(dir.open_read(&path("a")), Err(DirectoryError::NotFound)));
    dir.atomic_write(&path("a"), b"hello".to_vec()).unwrap();
    assert!(dir.file_exists(&path("a")));
    assert_eq!(dir.open_read(&path("a")).unwrap(), b"hello".to_vec());
    assert_eq!(dir.atomic_read(&path("a")).unwrap(), b"hello".to_vec());
    dir.delete(&path("a")).unwrap();
    assert!(!dir.file_exists(&path("a")));
    assert!(matches!(dir.delete(&path("a")), Err(DirectoryError::NotFound)));
}

#[test]
fn test_ram_atomic_write_replaces() {
    let mut dir = RamDirectory::create();
    dir.atomic_write(&path("f"), b"one".to_vec()).unwrap();
    dir.atomic_write(&path("f"), b"two".to_vec()).unwrap();
    assert_eq!(dir.open_read(&path("f")).unwrap(), b"two".to_vec());
}

#[test]
fn test_ram_open_write_already_exists() {
    let mut dir = RamDirectory::create();
    dir.open_write(&path("f"), b"one".to_vec()).unwrap();
    assert!(matches!(
        dir.open_write(&path("f"), b"two".to_vec()),
        Err(DirectoryError::AlreadyExists)
    ));
    assert_eq!(dir.open_read(&path("f")).unwrap(), b"one".to_vec());
}

#[test]
fn test_read_through() {
    let mut inner = RamDirectory::create();
    inner.atomic_write(&path("p"), b"cold".to_vec()).unwrap();
    let mut cache = CacheDirectory::create(inner);

    // No volatile write for the path: the backing store answers.
    assert_eq!(cache.open_read(&path("p")).unwrap(), b"cold".to_vec());

    // A volatile write shadows the backing store.
    cache.atomic_write(&path("p"), b"hot".to_vec()).unwrap();
    assert_eq!(cache.open_read(&path("p")).unwrap(), b"hot".to_vec());

    // Deleting the hot copy never touches disk: the cold copy shows again.
    cache.delete(&path("p")).unwrap();
    assert_eq!(cache.open_read(&path("p")).unwrap(), b"cold".to_vec());
}

#[test]
fn test_delete_reaches_backing_store_when_cold() {
    let mut inner = RamDirectory::create();
    inner.atomic_write(&path("cold"), b"x".to_vec()).unwrap();
    let mut cache = CacheDirectory::create(inner);
    cache.delete(&path("cold")).unwrap();
    assert!(!cache.file_exists(&path("cold")));
    assert!(!cache.into_inner().file_exists(&path("cold")));
}

#[test]
fn test_cache_delete_not_found() {
    let inner = RamDirectory::create();
    let mut cache = CacheDirectory::create(inner);
    assert!(matches!(cache.delete(&path("missing")), Err(DirectoryError::NotFound)));
}

#[test]
fn test_writes_stay_volatile_until_persist() {
    let inner = RamDirectory::create();
    let mut cache = CacheDirectory::create(inner);
    cache.atomic_write(&path("seg"), b"bytes".to_vec()).unwrap();
    assert!(cache.file_exists(&path("seg")));
    let inner_back = cache.into_inner();
    assert!(!inner_back.file_exists(&path("seg")));
}

#[test]
fn test_persist_completeness() {
    let mut inner = RamDirectory::create();
    inner.atomic_write(&path("old"), b"kept".to_vec()).unwrap();
    let mut cache = CacheDirectory::create(inner);
    cache.atomic_write(&path("a"), b"one".to_vec()).unwrap();
    cache.atomic_write(&path("b"), b"stale".to_vec()).unwrap();
    cache.atomic_write(&path("b"), b"fresh".to_vec()).unwrap();
    cache.persist().unwrap();

    // Every volatile path is in the backing store with its latest content,
    // and the volatile copies are kept.
    assert!(cache.file_exists(&path("a")));
    let durable = cache.into_inner();
    assert_eq!(durable.open_read(&path("a")).unwrap(), b"one".to_vec());
    assert_eq!(durable.open_read(&path("b")).unwrap(), b"fresh".to_vec());
    assert_eq!(durable.open_read(&path("old")).unwrap(), b"kept".to_vec());
}

#[test]
fn test_open_write_targets_volatile_only() {
    let mut inner = RamDirectory::create();
    inner.atomic_write(&path("p"), b"cold".to_vec()).unwrap();
    let mut cache = CacheDirectory::create(inner);
    // The name exists only in the backing store, so the volatile tier still
    // accepts an open-write of it, shadowing the cold copy.
    cache.open_write(&path("p"), b"hot".to_vec()).unwrap();
    assert_eq!(cache.open_read(&path("p")).unwrap(), b"hot".to_vec());
    assert!(matches!(
        cache.open_write(&path("p"), b"again".to_vec()),
        Err(DirectoryError::AlreadyExists)
    ));
}

#[test]
fn test_sync_directory_is_noop() {
    let inner = RamDirectory::create();
    let cache = CacheDirectory::create(inner);
    assert!(cache.sync_directory().is_ok());
}
