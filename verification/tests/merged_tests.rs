//! Merged directory listings: union, deduplication, ordering.

use content_resolver::{
    ContentError, DirectoryEntry, EntryType, MemorySource, NoCache, ResourceResolver,
};

fn entry(name: &str, path: &str, entry_type: EntryType) -> DirectoryEntry {
    DirectoryEntry {
        name: name.to_string(),
        path: path.to_string(),
        entry_type,
    }
}

#[test]
fn test_merged_directory_listing() {
    let mut source1 = MemorySource::new("mock".to_string());
    source1.add_directory("dir", vec![entry("file1.txt", "dir/file1.txt", EntryType::File)]);

    let mut source2 = MemorySource::new("mock".to_string());
    source2.add_directory(
        "dir",
        vec![
            entry("file2.txt", "dir/file2.txt", EntryType::File),
            entry("file1.txt", "dir/file1.txt", EntryType::File),
        ],
    );

    let resolver = ResourceResolver::<MemorySource, NoCache>::new(vec![source1, source2]);

    let listing = resolver.list_directory_merged("dir").unwrap();

    // Should have both files, with file1.txt deduplicated
    assert_eq!(listing.entries.len(), 2);
    let names: Vec<_> = listing.entries.iter().map(|e| e.name.as_str()).collect();
    assert!(names.contains(&"file1.txt"));
    assert!(names.contains(&"file2.txt"));
}

#[test]
fn test_merged_two_sources_scenario() {
    // S1 lists d/x; S2 lists d/x and d/y: exactly two entries remain.
    let mut s1 = MemorySource::new("s1".to_string());
    s1.add_directory("d", vec![entry("x", "d/x", EntryType::File)]);
    let mut s2 = MemorySource::new("s2".to_string());
    s2.add_directory(
        "d",
        vec![entry("x", "d/x", EntryType::File), entry("y", "d/y", EntryType::File)],
    );

    let resolver = ResourceResolver::<MemorySource, NoCache>::new(vec![s1, s2]);
    let listing = resolver.list_directory_merged("d").unwrap();
    assert_eq!(listing.path, "d");
    assert_eq!(listing.entries.len(), 2);
    assert_eq!(listing.entries[0].path, "d/x");
    assert_eq!(listing.entries[1].path, "d/y");
}

#[test]
fn test_merged_sorted_by_path() {
    let mut s1 = MemorySource::new("s1".to_string());
    s1.add_directory(
        "d",
        vec![
            entry("c", "d/c", EntryType::File),
            entry("a", "d/a", EntryType::File),
            entry("b", "d/b", EntryType::Dir),
        ],
    );
    let resolver = ResourceResolver::<MemorySource, NoCache>::new(vec![s1]);
    let listing = resolver.list_directory_merged("d").unwrap();
    let paths: Vec<_> = listing.entries.iter().map(|e| e.path.as_str()).collect();
    assert_eq!(paths, vec!["d/a", "d/b", "d/c"]);
}

#[test]
fn test_merged_failing_source_contributes_nothing() {
    let mut healthy = MemorySource::new("healthy".to_string());
    healthy.add_directory("d", vec![entry("a", "d/a", EntryType::File)]);
    let mut broken = MemorySource::new("broken".to_string());
    broken.add_directory_error(
        "d",
        ContentError::Network {
            message: "unreachable".to_string(),
        },
    );

    let resolver = ResourceResolver::<MemorySource, NoCache>::new(vec![broken, healthy]);
    let listing = resolver.list_directory_merged("d").unwrap();
    assert_eq!(listing.entries.len(), 1);
    assert_eq!(listing.entries[0].path, "d/a");
}

#[test]
fn test_merged_not_found_only_when_all_fail() {
    let empty1 = MemorySource::new("e1".to_string());
    let mut broken = MemorySource::new("broken".to_string());
    broken.add_directory_error(
        "d",
        ContentError::Io {
            message: "disk gone".to_string(),
        },
    );

    let resolver = ResourceResolver::<MemorySource, NoCache>::new(vec![empty1, broken]);
    match resolver.list_directory_merged("d") {
        Err(ContentError::NotFound { path }) => assert_eq!(path, "d"),
        _ => panic!("expected NotFound when no source succeeds"),
    }
}

#[test]
fn test_merged_type_tie_break_keeps_first_source() {
    // The sources disagree about d/x: the higher-priority source's entry
    // survives, its entry type included.
    let mut s1 = MemorySource::new("s1".to_string());
    s1.add_directory("d", vec![entry("x", "d/x", EntryType::Dir)]);
    let mut s2 = MemorySource::new("s2".to_string());
    s2.add_directory("d", vec![entry("x", "d/x", EntryType::File)]);

    let resolver = ResourceResolver::<MemorySource, NoCache>::new(vec![s1, s2]);
    let listing = resolver.list_directory_merged("d").unwrap();
    assert_eq!(listing.entries.len(), 1);
    assert_eq!(listing.entries[0].entry_type, EntryType::Dir);
}

#[test]
fn test_list_directory_first_match_wins() {
    let mut s1 = MemorySource::new("s1".to_string());
    s1.add_directory("d", vec![entry("a", "d/a", EntryType::File)]);
    let mut s2 = MemorySource::new("s2".to_string());
    s2.add_directory("d", vec![entry("b", "d/b", EntryType::File)]);

    let resolver = ResourceResolver::<MemorySource, NoCache>::new(vec![s1, s2]);
    let listing = resolver.list_directory("d").unwrap();
    assert_eq!(listing.entries.len(), 1);
    assert_eq!(listing.entries[0].path, "d/a");
}

#[test]
fn test_list_directory_error_shadowing() {
    let mut broken = MemorySource::new("broken".to_string());
    broken.add_directory_error(
        "d",
        ContentError::RateLimited {
            message: "slow down".to_string(),
        },
    );
    let empty = MemorySource::new("empty".to_string());

    let resolver = ResourceResolver::<MemorySource, NoCache>::new(vec![broken, empty]);
    match resolver.list_directory("d") {
        Err(ContentError::RateLimited { message }) => assert_eq!(message, "slow down"),
        _ => panic!("expected the remembered rate-limit error"),
    }
}
