//! The ingestion driver: from a file's path and the outcome of reading it
//! to a merged document, through dispatch and the selected indexer.
//!
//! Reading the file itself happens outside the library; its outcome
//! arrives here as a plain [`ReadOutcome`] value.

use vstd::prelude::*;
use crate::engine::{EngineView, QueryEngine};
use crate::errors::IndexingError;
use crate::indexer::{Indexer, ReadOutcome};
use crate::protocol::InboundMessage;
use crate::registry::{IndexerKind, Registry, dispatch_succeeds, is_first_match};
use crate::schema::DocumentView;
use crate::text::{file_name_of, spec_extension, spec_file_name};

verus! {

/// How ingesting one file must end: `UnsupportedExtension` when dispatch
/// finds no indexer, otherwise the read outcome decides — text succeeds,
/// and each failed read maps to its indexing error.
pub open spec fn spec_ingest_result(
    reg: Seq<IndexerKind>,
    path: Seq<char>,
    content: ReadOutcome,
) -> Result<(), IndexingError> {
    if !dispatch_succeeds(reg, path) {
        Err(IndexingError::UnsupportedExtension)
    } else {
        match content {
            ReadOutcome::Content(_) => Ok(()),
            ReadOutcome::Missing => Err(IndexingError::NotFound),
            ReadOutcome::IoFailure => Err(IndexingError::ReadFailure),
            ReadOutcome::BadEncoding => Err(IndexingError::DecodeFailure),
        }
    }
}

/// Ingests one file: dispatches on the path's extension, lets the selected
/// indexer build the document, and merges it into the engine. A failure is
/// per-file: it leaves the index exactly as it was, so a batch can proceed
/// with its remaining files.
pub fn ingest_file(
    engine: &mut QueryEngine,
    registry: &Registry,
    path: &str,
    content: ReadOutcome,
) -> (r: Result<(), IndexingError>)
    requires
        old(engine)@.wf(),
        !old(engine)@.stopped,
        spec_file_name(path@).len() > 0,
    ensures
        final(engine)@.wf(),
        final(engine)@.stopped == old(engine)@.stopped,
        r == spec_ingest_result(registry@, path@, content),
        (r is Err ==> final(engine)@ == old(engine)@),
        (r is Ok ==> exists|i: int|
            {
                &&& is_first_match(registry@, spec_extension(path@)->0, i)
                &&& final(engine)@ == (EngineView {
                    docs: old(engine)@.docs.push(
                        DocumentView {
                            name: spec_file_name(path@),
                            body: (#[trigger] registry@[i]).spec_convert(content->Content_0@),
                        },
                    ),
                    ..old(engine)@
                })
            }),
{
    let name = file_name_of(path);
    let idx = match registry.dispatch(path) {
        Ok(i) => i,
        Err(e) => {
            return Err(e);
        },
    };
    proof {
        let ext = spec_extension(path@)->0;
        assert(registry@[idx as int].spec_supports(ext));
        assert(dispatch_succeeds(registry@, path@));
    }
    let doc = match registry.indexer_at(idx).index_file(name, content) {
        Ok(d) => d,
        Err(e) => {
            return Err(e);
        },
    };
    let ghost doc_view = doc@;
    engine.handle(InboundMessage::Ingest(doc));
    proof {
        let ext = spec_extension(path@)->0;
        assert(is_first_match(registry@, ext, idx as int));
        assert(engine@ == (EngineView {
            docs: old(engine)@.docs.push(doc_view),
            ..old(engine)@
        }));
        assert(doc_view == (DocumentView {
            name: spec_file_name(path@),
            body: registry@[idx as int].spec_convert(content->Content_0@),
        }));
    }
    Ok(())
}

} // verus!
