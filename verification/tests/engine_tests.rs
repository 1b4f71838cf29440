use podium_core::engine::QueryEngine;
use podium_core::errors::{IndexingError, QueryError};
use podium_core::indexer::{ReadOutcome, TextIndexer};
use podium_core::protocol::{InboundMessage, QueryOutcome, QueryRequest};
use podium_core::registry::{IndexerKind, Registry};
use podium_core::schema::DocumentSchema;
use podium_core::service::ingest_file;
use podium_core::text::occurrence_count;

fn doc(name: &str, body: &str) -> DocumentSchema {
    DocumentSchema { name: String::from(name), body: String::from(body) }
}

fn query(id: u64, text: &str) -> InboundMessage {
    InboundMessage::Query(QueryRequest { id, text: String::from(text) })
}

#[test]
fn ingest_then_query_round_trip() {
    let mut engine = QueryEngine::new();
    let none = engine.handle(InboundMessage::Ingest(doc("a.txt", "hello world")));
    assert!(none.is_none());

    let resp = engine.handle(query(7, "hello")).unwrap();
    assert_eq!(resp.id, 7);
    match resp.outcome {
        QueryOutcome::Results(hits) => {
            assert_eq!(hits.len(), 1);
            assert_eq!(hits[0].name, "a.txt");
            assert_eq!(hits[0].score, 1);
        }
        QueryOutcome::Failure(_) => panic!("expected results"),
    }
}

#[test]
fn query_misses_unrelated_documents() {
    let mut engine = QueryEngine::new();
    engine.handle(InboundMessage::Ingest(doc("a.txt", "hello world")));
    engine.handle(InboundMessage::Ingest(doc("b.txt", "entirely different text")));

    let resp = engine.handle(query(1, "hello")).unwrap();
    match resp.outcome {
        QueryOutcome::Results(hits) => {
            assert_eq!(hits.len(), 1);
            assert_eq!(hits[0].name, "a.txt");
        }
        QueryOutcome::Failure(_) => panic!("expected results"),
    }
}

#[test]
fn results_keep_ingestion_order() {
    let mut engine = QueryEngine::new();
    engine.handle(InboundMessage::Ingest(doc("first.txt", "shared term")));
    engine.handle(InboundMessage::Ingest(doc("second.txt", "shared term again")));

    let resp = engine.handle(query(2, "shared")).unwrap();
    match resp.outcome {
        QueryOutcome::Results(hits) => {
            assert_eq!(hits.len(), 2);
            assert_eq!(hits[0].name, "first.txt");
            assert_eq!(hits[1].name, "second.txt");
        }
        QueryOutcome::Failure(_) => panic!("expected results"),
    }
}

#[test]
fn score_counts_occurrences() {
    assert_eq!(occurrence_count("aaaa", "aa"), 3);
    assert_eq!(occurrence_count("hello world hello", "hello"), 2);
    assert_eq!(occurrence_count("none here", "hello"), 0);
    assert_eq!(occurrence_count("hi", "longer than body"), 0);

    let mut engine = QueryEngine::new();
    engine.handle(InboundMessage::Ingest(doc("a.txt", "dodo dododo")));
    let resp = engine.handle(query(3, "dodo")).unwrap();
    match resp.outcome {
        QueryOutcome::Results(hits) => {
            assert_eq!(hits[0].score, 3);
        }
        QueryOutcome::Failure(_) => panic!("expected results"),
    }
}

#[test]
fn empty_query_is_malformed() {
    let mut engine = QueryEngine::new();
    let resp = engine.handle(query(4, "")).unwrap();
    assert_eq!(resp.id, 4);
    assert!(matches!(
        resp.outcome,
        QueryOutcome::Failure(QueryError::MalformedQuery)
    ));
}

#[test]
fn every_query_gets_exactly_one_response() {
    let mut engine = QueryEngine::new();
    let msgs = vec![
        InboundMessage::Ingest(doc("a.txt", "alpha")),
        query(10, "alpha"),
        query(11, ""),
        InboundMessage::Ingest(doc("b.txt", "beta")),
        query(12, "beta"),
    ];
    let resps = engine.process_all(msgs);
    assert_eq!(resps.len(), 3);
    assert_eq!(resps[0].id, 10);
    assert_eq!(resps[1].id, 11);
    assert_eq!(resps[2].id, 12);
}

#[test]
fn shutdown_answers_pending_with_service_stopping() {
    let mut engine = QueryEngine::new();
    engine.handle(InboundMessage::Shutdown);
    assert!(engine.is_stopped());

    let pending = vec![
        QueryRequest { id: 20, text: String::from("one") },
        QueryRequest { id: 21, text: String::from("two") },
        QueryRequest { id: 22, text: String::from("three") },
    ];
    let resps = QueryEngine::drain_pending(pending);
    assert_eq!(resps.len(), 3);
    for (resp, id) in resps.iter().zip([20u64, 21, 22]) {
        assert_eq!(resp.id, id);
        assert!(matches!(
            resp.outcome,
            QueryOutcome::Failure(QueryError::ServiceStopping)
        ));
    }
}

#[test]
fn stopped_engine_answers_queries_with_service_stopping() {
    let mut engine = QueryEngine::new();
    engine.handle(InboundMessage::Ingest(doc("a.txt", "hello")));
    engine.handle(InboundMessage::Shutdown);

    let resp = engine.handle(query(30, "hello")).unwrap();
    assert_eq!(resp.id, 30);
    assert!(matches!(
        resp.outcome,
        QueryOutcome::Failure(QueryError::ServiceStopping)
    ));

    engine.handle(InboundMessage::Ingest(doc("late.txt", "hello")));
    assert_eq!(engine.doc_count(), 1);
}

#[test]
fn ingest_missing_file_leaves_index_unchanged() {
    let mut registry = Registry::new();
    registry.register(IndexerKind::Text(TextIndexer));
    let mut engine = QueryEngine::new();

    let r = ingest_file(&mut engine, &registry, "missing.txt", ReadOutcome::Missing);
    assert_eq!(r, Err(IndexingError::NotFound));
    assert_eq!(engine.doc_count(), 0);
}

#[test]
fn ingest_failures_are_per_file() {
    let mut registry = Registry::new();
    registry.register(IndexerKind::Text(TextIndexer));
    let mut engine = QueryEngine::new();

    assert_eq!(
        ingest_file(&mut engine, &registry, "broken.txt", ReadOutcome::IoFailure),
        Err(IndexingError::ReadFailure)
    );
    assert_eq!(
        ingest_file(&mut engine, &registry, "binary.txt", ReadOutcome::BadEncoding),
        Err(IndexingError::DecodeFailure)
    );
    assert_eq!(
        ingest_file(&mut engine, &registry, "image.unknownext", ReadOutcome::Missing),
        Err(IndexingError::UnsupportedExtension)
    );
    assert_eq!(engine.doc_count(), 0);

    let ok = ingest_file(
        &mut engine,
        &registry,
        "./docs/kept.txt",
        ReadOutcome::Content(String::from("still ingested")),
    );
    assert_eq!(ok, Ok(()));
    assert_eq!(engine.doc_count(), 1);
}
