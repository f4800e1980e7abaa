//! Fallback resolution and caching behaviour of the resolver.

use content_resolver::{
    Cache, ContentError, ContentSource, FallbackState, MemoryCache, MemorySource, NoCache,
    ResourceResolver,
};

fn plain(label: &str) -> MemorySource {
    MemorySource::new(label.to_string())
}

#[test]
fn resolver_test_fallback_resolution() {
    let mut source1 = plain("mock");
    source1.add_file("file1.txt", b"from source 1".to_vec());
    let mut source2 = plain("mock");
    source2.add_file("file2.txt", b"from source 2".to_vec());

    let mut resolver = ResourceResolver::<MemorySource, NoCache>::new(vec![source1, source2]);

    // File from first source
    let result = resolver.fetch_file("file1.txt").unwrap();
    assert_eq!(result.content, b"from source 1".to_vec());

    // File from second source
    let result = resolver.fetch_file("file2.txt").unwrap();
    assert_eq!(result.content, b"from source 2".to_vec());

    // File not in any source
    assert!(matches!(
        resolver.fetch_file("missing.txt"),
        Err(ContentError::NotFound { .. })
    ));
}

#[test]
fn test_caching() {
    let mut source = plain("mock");
    source.add_file("file.txt", b"content".to_vec());
    let cache = MemoryCache::new();

    let mut resolver = ResourceResolver::with_cache(vec![source], cache);

    // First fetch - from source
    let result = resolver.fetch_file("file.txt").unwrap();
    assert_eq!(result.content, b"content".to_vec());

    // Check cache was populated
    assert!(resolver.cache.as_ref().unwrap().contains("file:file.txt"));

    // Second fetch - from cache
    let result = resolver.fetch_file("file.txt").unwrap();
    assert_eq!(result.content, b"content".to_vec());
    assert_eq!(result.source_path, "cache:file.txt");
}

#[test]
fn test_basic_file_resolution() {
    let mut source = plain("mock");
    source.add_file("test.txt", b"Hello, World!".to_vec());

    let mut resolver = ResourceResolver::<MemorySource, NoCache>::new(vec![source]);

    let content = resolver.fetch_file("test.txt").unwrap();
    assert_eq!(content.content, b"Hello, World!".to_vec());
}

#[test]
fn integration_tests_test_fallback_resolution() {
    let mut primary = plain("mock");
    primary.add_file("primary.txt", b"From primary".to_vec());

    let mut fallback = plain("mock");
    fallback.add_file("fallback.txt", b"From fallback".to_vec());
    fallback.add_file("primary.txt", b"Should not be used".to_vec());

    let mut resolver = ResourceResolver::<MemorySource, NoCache>::new(vec![primary, fallback]);

    // File in primary source
    let content = resolver.fetch_file("primary.txt").unwrap();
    assert_eq!(content.content, b"From primary".to_vec());

    // File only in fallback
    let content = resolver.fetch_file("fallback.txt").unwrap();
    assert_eq!(content.content, b"From fallback".to_vec());

    // File in neither
    assert!(matches!(
        resolver.fetch_file("missing.txt"),
        Err(ContentError::NotFound { .. })
    ));
}

#[test]
fn integration_tests_test_memory_cache() {
    let mut source = plain("mock");
    source.add_file("cached.txt", b"Cached content".to_vec());

    let cache = MemoryCache::new();
    let mut resolver = ResourceResolver::with_cache(vec![source], cache);

    // First fetch - from source
    let content1 = resolver.fetch_file("cached.txt").unwrap();
    assert_eq!(content1.content, b"Cached content".to_vec());

    // Verify cache was populated
    assert!(resolver.cache.as_ref().unwrap().contains("file:cached.txt"));

    // Second fetch - from cache
    let content2 = resolver.fetch_file("cached.txt").unwrap();
    assert_eq!(content2.content, b"Cached content".to_vec());
    assert_eq!(content2.source_path, "cache:cached.txt");
}

#[test]
fn test_error_propagation() {
    let source = plain("mock"); // Empty source
    let mut resolver = ResourceResolver::<MemorySource, NoCache>::new(vec![source]);

    // Not found error
    match resolver.fetch_file("missing.txt") {
        Err(ContentError::NotFound { path }) => {
            assert_eq!(path, "missing.txt");
        }
        _ => panic!("Expected NotFound error"),
    }
}

#[test]
fn test_concurrent_operations() {
    let mut source = plain("mock");
    source.add_file("file1.txt", b"Content 1".to_vec());
    source.add_file("file2.txt", b"Content 2".to_vec());
    source.add_file("file3.txt", b"Content 3".to_vec());

    let mut resolver = ResourceResolver::<MemorySource, NoCache>::new(vec![source]);

    let result1 = resolver.fetch_file("file1.txt");
    let result2 = resolver.fetch_file("file2.txt");
    let result3 = resolver.fetch_file("file3.txt");

    assert_eq!(result1.unwrap().content, b"Content 1".to_vec());
    assert_eq!(result2.unwrap().content, b"Content 2".to_vec());
    assert_eq!(result3.unwrap().content, b"Content 3".to_vec());
}

#[test]
fn test_priority_scenario() {
    // S1 holds a.txt = "A"; S2 holds a.txt = "Z" and b.txt = "B".
    let mut s1 = plain("s1");
    s1.add_file("a.txt", b"A".to_vec());
    let mut s2 = plain("s2");
    s2.add_file("a.txt", b"Z".to_vec());
    s2.add_file("b.txt", b"B".to_vec());

    let mut resolver = ResourceResolver::<MemorySource, NoCache>::new(vec![s1, s2]);

    assert_eq!(resolver.fetch_file("a.txt").unwrap().content, b"A".to_vec());
    assert_eq!(resolver.fetch_file("b.txt").unwrap().content, b"B".to_vec());
    match resolver.fetch_file("c.txt") {
        Err(ContentError::NotFound { path }) => assert_eq!(path, "c.txt"),
        _ => panic!("expected NotFound for c.txt"),
    }
}

#[test]
fn test_error_shadowed_by_later_success() {
    let mut failing = plain("failing");
    failing.add_file_error(
        "a.txt",
        ContentError::Network {
            message: "connection reset".to_string(),
        },
    );
    let mut healthy = plain("healthy");
    healthy.add_file("a.txt", b"good bytes".to_vec());

    let mut resolver = ResourceResolver::<MemorySource, NoCache>::new(vec![failing, healthy]);
    let content = resolver.fetch_file("a.txt").unwrap();
    assert_eq!(content.content, b"good bytes".to_vec());
}

#[test]
fn test_error_not_masked_by_not_found() {
    let mut failing = plain("failing");
    failing.add_file_error(
        "a.txt",
        ContentError::RateLimited {
            message: "quota exhausted".to_string(),
        },
    );
    let empty = plain("empty"); // reports NotFound for everything

    let mut resolver = ResourceResolver::<MemorySource, NoCache>::new(vec![failing, empty]);
    match resolver.fetch_file("a.txt") {
        Err(ContentError::RateLimited { message }) => assert_eq!(message, "quota exhausted"),
        _ => panic!("expected the rate-limit error, not NotFound"),
    }
}

#[test]
fn test_latest_error_survives() {
    let mut first = plain("first");
    first.add_file_error(
        "a.txt",
        ContentError::Network {
            message: "early".to_string(),
        },
    );
    let mut second = plain("second");
    second.add_file_error(
        "a.txt",
        ContentError::Io {
            message: "late".to_string(),
        },
    );

    let mut resolver = ResourceResolver::<MemorySource, NoCache>::new(vec![first, second]);
    match resolver.fetch_file("a.txt") {
        Err(ContentError::Io { message }) => assert_eq!(message, "late"),
        _ => panic!("expected the most recent non-NotFound error"),
    }
}

#[test]
fn test_cache_hit_skips_sources() {
    // After a cached fetch the answer comes from the cache even though the
    // only source then disagrees about the content.
    let mut source = plain("mock");
    source.add_file("f.txt", b"first".to_vec());
    let mut resolver = ResourceResolver::with_cache(vec![source], MemoryCache::new());
    assert_eq!(resolver.fetch_file("f.txt").unwrap().content, b"first".to_vec());

    // Change what the source would answer.
    let mut changed = plain("mock");
    changed.add_file("f.txt", b"second".to_vec());
    resolver.sources = vec![changed];

    let hit = resolver.fetch_file("f.txt").unwrap();
    assert_eq!(hit.content, b"first".to_vec());
    assert_eq!(hit.source_path, "cache:f.txt");
    assert_eq!(hit.etag, None);
}

#[test]
fn test_file_exists() {
    let mut s1 = plain("s1");
    s1.add_file("here.txt", b"x".to_vec());
    let s2 = plain("s2");
    let resolver = ResourceResolver::<MemorySource, NoCache>::new(vec![s2, s1]);
    assert!(resolver.file_exists("here.txt"));
    assert!(!resolver.file_exists("gone.txt"));
}

#[test]
fn test_sources_accessor() {
    let s1 = plain("one");
    let s2 = plain("two");
    let resolver = ResourceResolver::<MemorySource, NoCache>::new(vec![s1, s2]);
    assert_eq!(resolver.sources().len(), 2);
    assert_eq!(resolver.sources()[0].identifier(), "one");
    assert_eq!(resolver.sources()[1].identifier(), "two");
}

#[test]
fn test_fallback_state_absorb_and_finish() {
    let mut st = FallbackState::begin("p.txt");
    let skipped: Option<u32> = st.absorb(Err(ContentError::NotFound {
        path: "p.txt".to_string(),
    }));
    assert!(skipped.is_none());
    let taken = st.absorb::<u32>(Ok(7));
    assert_eq!(taken, Some(7));
    match st.finish() {
        ContentError::NotFound { path } => assert_eq!(path, "p.txt"),
        _ => panic!("nothing but NotFound was absorbed"),
    }

    let mut st = FallbackState::begin("q.txt");
    let _ = st.absorb::<u32>(Err(ContentError::Network {
        message: "down".to_string(),
    }));
    let _ = st.absorb::<u32>(Err(ContentError::NotFound {
        path: "q.txt".to_string(),
    }));
    match st.finish() {
        ContentError::Network { message } => assert_eq!(message, "down"),
        _ => panic!("the remembered error should survive trailing NotFounds"),
    }
}

#[test]
fn test_error_descriptions() {
    let e = ContentError::NotFound {
        path: "a.txt".to_string(),
    };
    assert_eq!(e.describe(), "Content not found: a.txt");
    let e = ContentError::RateLimited {
        message: "try later".to_string(),
    };
    assert_eq!(e.describe(), "Rate limited by remote service: try later");
    let e = ContentError::Cache {
        message: "bad sector".to_string(),
    };
    assert_eq!(e.describe(), "Cache error: bad sector");
}
