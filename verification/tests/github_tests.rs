//! The GitHub source's pure logic: path joining and stripping, URLs,
//! status classification and entry conversion.

use content_resolver::github::RawDirEntry;
use content_resolver::{ContentError, EntryType, GitHubSource};

fn source(base_path: &str) -> GitHubSource {
    GitHubSource::new(
        "owner".to_string(),
        "repo".to_string(),
        "main".to_string(),
        base_path.to_string(),
    )
}

#[test]
fn test_join_path() {
    let source = source("base/path");

    assert_eq!(source.join_path("file.txt"), "base/path/file.txt");
    assert_eq!(source.join_path("/file.txt"), "base/path/file.txt");
}

#[test]
fn test_join_path_empty_base() {
    let source = source("");

    assert_eq!(source.join_path("file.txt"), "file.txt");
    assert_eq!(source.join_path("/file.txt"), "file.txt");
}

#[test]
fn test_strip_base_path() {
    let source = source("config");

    // The API returns "config/subdir" but we want "subdir"
    assert_eq!(source.strip_base_path("config/subdir"), "subdir");
    assert_eq!(source.strip_base_path("config/subdir/file.txt"), "subdir/file.txt");

    // Edge cases
    assert_eq!(source.strip_base_path("config"), "");
    assert_eq!(source.strip_base_path("/config/subdir"), "subdir");
}

#[test]
fn test_strip_base_path_empty_base() {
    let source = source("");

    // With no base path, return as-is
    assert_eq!(source.strip_base_path("config/subdir"), "config/subdir");
    assert_eq!(source.strip_base_path("file.txt"), "file.txt");
}

#[test]
fn test_strip_base_path_nested() {
    let source = source("base/path");

    assert_eq!(source.strip_base_path("base/path/config"), "config");
    assert_eq!(source.strip_base_path("base/path/config/sub"), "config/sub");
}

#[test]
fn test_github_source_path_joining() {
    let source = source("base/path");

    // The identifier should include all configuration
    let id = source.identifier();
    assert!(id.contains("owner"));
    assert!(id.contains("repo"));
    assert!(id.contains("main"));
    assert!(id.contains("base/path"));
}

#[test]
fn test_urls() {
    let source = source("base");
    assert_eq!(
        source.raw_url("dir/file.txt"),
        "https://raw.githubusercontent.com/owner/repo/main/base/dir/file.txt"
    );
    assert_eq!(
        source.api_url("dir"),
        "https://api.github.com/repos/owner/repo/contents/base/dir?ref=main"
    );
}

#[test]
fn test_error_for_status() {
    let source = source("");

    match source.error_for_status("a.txt", 404, None) {
        ContentError::NotFound { path } => assert_eq!(path, "a.txt"),
        _ => panic!("404 maps to NotFound"),
    }
    match source.error_for_status("a.txt", 403, Some("limit hit".to_string())) {
        ContentError::RateLimited { message } => assert_eq!(message, "limit hit"),
        _ => panic!("403 maps to RateLimited"),
    }
    match source.error_for_status("a.txt", 429, None) {
        ContentError::RateLimited { message } => {
            assert_eq!(message, "GitHub API rate limit exceeded")
        }
        _ => panic!("429 maps to RateLimited"),
    }
    match source.error_for_status("a.txt", 500, Some("boom".to_string())) {
        ContentError::InvalidStructure { message } => {
            assert_eq!(message, "Unexpected status 500: boom")
        }
        _ => panic!("another status maps to InvalidStructure"),
    }
    assert!(source.is_rate_limit_error(403));
    assert!(source.is_rate_limit_error(429));
    assert!(!source.is_rate_limit_error(500));
}

#[test]
fn test_convert_entries() {
    let source = source("base");
    let raw = vec![
        RawDirEntry {
            name: "sub".to_string(),
            path: "base/sub".to_string(),
            entry_type: "dir".to_string(),
        },
        RawDirEntry {
            name: "f.txt".to_string(),
            path: "base/f.txt".to_string(),
            entry_type: "file".to_string(),
        },
        RawDirEntry {
            name: "odd".to_string(),
            path: "base/odd".to_string(),
            entry_type: "symlink".to_string(),
        },
    ];
    let listing = source.convert_entries("", &raw);
    assert_eq!(listing.path, "");
    assert_eq!(listing.entries.len(), 3);
    assert_eq!(listing.entries[0].name, "sub");
    assert_eq!(listing.entries[0].path, "sub");
    assert_eq!(listing.entries[0].entry_type, EntryType::Dir);
    assert_eq!(listing.entries[1].path, "f.txt");
    assert_eq!(listing.entries[1].entry_type, EntryType::File);
    // An unknown type is treated as a file
    assert_eq!(listing.entries[2].entry_type, EntryType::File);
}
