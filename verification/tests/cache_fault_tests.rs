//! The cache read-fault policy: a store fault on `get` — unlike a plain
//! miss — is propagated to the caller, not swallowed.

use content_resolver::{Cache, ContentError, MemorySource, ResourceResolver};

/// A store whose reads always fault.
struct FaultyCache;

impl Cache for FaultyCache {
    // The three specification members carry no runtime behaviour and are
    // never called.
    fn model(&self) -> vstd::map::Map<vstd::seq::Seq<char>, vstd::seq::Seq<u8>> {
        panic!()
    }

    fn infallible(&self) -> bool {
        panic!()
    }

    fn retentive(&self) -> bool {
        panic!()
    }

    fn get(&self, _key: &str) -> Result<Option<Vec<u8>>, ContentError> {
        Err(ContentError::Cache {
            message: "store unavailable".to_string(),
        })
    }

    fn set(&mut self, _key: &str, _value: Vec<u8>) -> Result<(), ContentError> {
        Err(ContentError::Cache {
            message: "store unavailable".to_string(),
        })
    }

    fn contains(&self, _key: &str) -> bool {
        false
    }

    fn remove(&mut self, _key: &str) -> Result<(), ContentError> {
        Ok(())
    }

    fn clear(&mut self) -> Result<(), ContentError> {
        Ok(())
    }
}

#[test]
fn test_cache_read_fault_propagates() {
    let mut source = MemorySource::new("mock".to_string());
    source.add_file("a.txt", b"bytes".to_vec());

    let mut resolver = ResourceResolver::with_cache(vec![source], FaultyCache);
    match resolver.fetch_file("a.txt") {
        Err(ContentError::Cache { message }) => assert_eq!(message, "store unavailable"),
        _ => panic!("a cache read fault is propagated, not treated as a miss"),
    }
}

/// A store that misses on every read and faults on every write.
struct WriteFaultCache;

impl Cache for WriteFaultCache {
    // The three specification members carry no runtime behaviour and are
    // never called.
    fn model(&self) -> vstd::map::Map<vstd::seq::Seq<char>, vstd::seq::Seq<u8>> {
        panic!()
    }

    fn infallible(&self) -> bool {
        panic!()
    }

    fn retentive(&self) -> bool {
        panic!()
    }

    fn get(&self, _key: &str) -> Result<Option<Vec<u8>>, ContentError> {
        Ok(None)
    }

    fn set(&mut self, _key: &str, _value: Vec<u8>) -> Result<(), ContentError> {
        Err(ContentError::Cache {
            message: "full".to_string(),
        })
    }

    fn contains(&self, _key: &str) -> bool {
        false
    }

    fn remove(&mut self, _key: &str) -> Result<(), ContentError> {
        Ok(())
    }

    fn clear(&mut self) -> Result<(), ContentError> {
        Ok(())
    }
}

#[test]
fn test_cache_write_fault_swallowed() {
    // A failing write never surfaces: the fetched content is returned.
    let mut source = MemorySource::new("mock".to_string());
    source.add_file("a.txt", b"bytes".to_vec());

    let mut resolver = ResourceResolver::with_cache(vec![source], WriteFaultCache);
    let content = resolver.fetch_file("a.txt").unwrap();
    assert_eq!(content.content, b"bytes".to_vec());
}
