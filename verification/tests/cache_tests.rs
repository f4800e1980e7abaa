//! The cache stores: in-memory behaviour, the no-op store, and the disk
//! cache's content-addressed paths with a real filesystem round trip.

use content_resolver::{Cache, DiskCache, MemoryCache, NoCache};

#[test]
fn cache_test_memory_cache() {
    let mut cache = MemoryCache::new();
    let key = "test_key";
    let value = b"test_value".to_vec();

    // Initially empty
    assert!(!cache.contains(key));
    assert!(cache.get(key).unwrap().is_none());

    // Set and get
    cache.set(key, value.clone()).unwrap();
    assert!(cache.contains(key));
    assert_eq!(cache.get(key).unwrap().unwrap(), value);

    // Remove
    cache.remove(key).unwrap();
    assert!(!cache.contains(key));

    // Clear
    cache.set("key1", b"val1".to_vec()).unwrap();
    cache.set("key2", b"val2".to_vec()).unwrap();
    cache.clear().unwrap();
    assert!(!cache.contains("key1"));
    assert!(!cache.contains("key2"));
}

#[test]
fn test_memory_cache_overwrite() {
    let mut cache = MemoryCache::new();
    cache.set("k", b"one".to_vec()).unwrap();
    cache.set("k", b"two".to_vec()).unwrap();
    assert_eq!(cache.get("k").unwrap().unwrap(), b"two".to_vec());
}

#[test]
fn test_no_cache_discards_everything() {
    let mut cache = NoCache;
    assert!(cache.get("k").unwrap().is_none());
    cache.set("k", b"v".to_vec()).unwrap();
    assert!(!cache.contains("k"));
    assert!(cache.get("k").unwrap().is_none());
    cache.remove("k").unwrap();
    cache.clear().unwrap();
}

#[test]
fn test_disk_cache_key_to_path() {
    // SHA-256("file:file.txt") =
    // d329a3c6c392c9eeb2f15cedd1c1d33b10f668c44b79c3a4320a0fcdbc858d14,
    // split after two hex characters.
    let cache = DiskCache::new("root".to_string());
    assert_eq!(
        cache.key_to_path("file:file.txt"),
        "root/d3/29a3c6c392c9eeb2f15cedd1c1d33b10f668c44b79c3a4320a0fcdbc858d14"
    );
    // SHA-256("alpha") starts 8e d3f6ad...
    assert_eq!(
        cache.key_to_path("alpha"),
        "root/8e/d3f6ad685b959ead7022518e1af76cd816f8e8ec7ccdda1ed4018e8f2223f8"
    );
}

#[test]
fn test_disk_cache_paths_stable_across_instances() {
    let one = DiskCache::new("/tmp/cache".to_string());
    let two = DiskCache::new("/tmp/cache".to_string());
    assert_eq!(one.key_to_path("file:a.txt"), two.key_to_path("file:a.txt"));
    assert_ne!(one.key_to_path("file:a.txt"), one.key_to_path("file:b.txt"));
}

#[test]
fn test_disk_cache() {
    // set(key, bytes), then a fresh disk cache over the same root finds
    // the same bytes at the path it computes for the key.
    let temp_dir = tempfile::TempDir::new().unwrap();
    let root = temp_dir.path().to_str().unwrap().to_string();

    let rt = tokio::runtime::Builder::new_current_thread()
        .enable_all()
        .build()
        .unwrap();
    rt.block_on(async {
        let cache = DiskCache::new(root.clone());
        let path = cache.key_to_path("file:file.txt");
        let parent = std::path::Path::new(&path).parent().unwrap().to_path_buf();
        tokio::fs::create_dir_all(&parent).await.unwrap();
        tokio::fs::write(&path, b"Test content").await.unwrap();

        // A fresh instance over the same root computes the same path.
        let fresh = DiskCache::new(root.clone());
        let again = fresh.key_to_path("file:file.txt");
        let data = tokio::fs::read(&again).await.unwrap();
        assert_eq!(data, b"Test content".to_vec());
    });
}
