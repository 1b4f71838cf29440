use podium_core::errors::IndexingError;
use podium_core::indexer::{Indexer, ReadOutcome, TextIndexer};
use podium_core::registry::{IndexerKind, Registry};
use podium_core::text::{contains_match, extension_of, file_name_of, last_index_of, str_eq};

#[test]
fn test_supports_text_extension() {
    assert_eq!(true, TextIndexer.supports_extension("txt"));
    assert_eq!(false, TextIndexer.supports_extension("png"));
}

#[test]
fn test_indexing_text_file() {
    let test_file_path = "./test_files/file.txt";
    let name = file_name_of(test_file_path);
    let content = ReadOutcome::Content(String::from("this is a file with some contents in it"));
    let indexed_document = TextIndexer.index_file(name, content).unwrap();

    assert_eq!(indexed_document.name, "file.txt");
    assert_eq!(
        indexed_document.body,
        "this is a file with some contents in it"
    );
}

#[test]
fn indexing_classifies_failed_reads() {
    assert_eq!(
        TextIndexer.index_file("a.txt", ReadOutcome::Missing).unwrap_err(),
        IndexingError::NotFound
    );
    assert_eq!(
        TextIndexer.index_file("a.txt", ReadOutcome::IoFailure).unwrap_err(),
        IndexingError::ReadFailure
    );
    assert_eq!(
        TextIndexer.index_file("a.txt", ReadOutcome::BadEncoding).unwrap_err(),
        IndexingError::DecodeFailure
    );
}

#[test]
fn supports_is_deterministic() {
    for _ in 0..3 {
        assert_eq!(true, TextIndexer.supports_extension("txt"));
        assert_eq!(false, TextIndexer.supports_extension("unknownext"));
    }
}

#[test]
fn dispatch_selects_matching_indexer() {
    let mut registry = Registry::new();
    registry.register(IndexerKind::Text(TextIndexer));
    assert_eq!(registry.dispatch("notes.txt"), Ok(0));
    assert_eq!(registry.dispatch("./dir/nested.file.txt"), Ok(0));
}

#[test]
fn dispatch_first_registered_wins() {
    let mut registry = Registry::new();
    registry.register(IndexerKind::Text(TextIndexer));
    registry.register(IndexerKind::Text(TextIndexer));
    assert_eq!(registry.dispatch("notes.txt"), Ok(0));
}

#[test]
fn dispatch_rejects_unknown_extension() {
    let mut registry = Registry::new();
    registry.register(IndexerKind::Text(TextIndexer));
    assert_eq!(
        registry.dispatch("file.unknownext"),
        Err(IndexingError::UnsupportedExtension)
    );
    assert_eq!(
        registry.dispatch("no_extension"),
        Err(IndexingError::UnsupportedExtension)
    );
}

#[test]
fn dispatch_on_empty_registry_fails() {
    let registry = Registry::new();
    assert_eq!(
        registry.dispatch("notes.txt"),
        Err(IndexingError::UnsupportedExtension)
    );
}

#[test]
fn extension_splitting() {
    assert_eq!(extension_of("file.txt"), Some("txt"));
    assert_eq!(extension_of("archive.tar.gz"), Some("gz"));
    assert_eq!(extension_of("no_extension"), None);
    assert_eq!(extension_of("trailing."), Some(""));
}

#[test]
fn file_name_splitting() {
    assert_eq!(file_name_of("./test_files/file.txt"), "file.txt");
    assert_eq!(file_name_of("plain.txt"), "plain.txt");
    assert_eq!(file_name_of("/a/b/c"), "c");
}

#[test]
fn string_helpers() {
    assert!(str_eq("same", "same"));
    assert!(!str_eq("same", "sane"));
    assert!(!str_eq("short", "shorter"));
    assert_eq!(last_index_of("a.b.c", '.'), Some(3));
    assert_eq!(last_index_of("abc", '.'), None);
    assert!(contains_match("hello world", "lo wo"));
    assert!(!contains_match("hello world", "low"));
}
