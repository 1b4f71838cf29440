//! The request/response protocol between callers and the engine: requests
//! carry a correlation id, responses carry the same id and either a ranked
//! result list or a failure.

use vstd::prelude::*;
use crate::errors::QueryError;
use crate::schema::{DocumentSchema, DocumentView};
use crate::text::occurrence_total;

verus! {

/// Mathematical model of a query request.
#[verifier::ext_equal]
pub ghost struct RequestView {
    pub id: u64,
    pub text: Seq<char>,
}

/// A query on its way to the engine. The id is unique among requests that
/// are in flight; the response carrying the same id answers this request.
pub struct QueryRequest {
    pub id: u64,
    pub text: String,
}

impl View for QueryRequest {
    type V = RequestView;

    open spec fn view(&self) -> RequestView {
        RequestView { id: self.id, text: self.text@ }
    }
}

/// Mathematical model of one search hit.
#[verifier::ext_equal]
pub ghost struct HitView {
    pub name: Seq<char>,
    pub score: nat,
}

/// One entry of a result list: a document's display name and its score,
/// the number of positions at which the query occurs in the body.
pub struct SearchHit {
    pub name: String,
    pub score: usize,
}

impl View for SearchHit {
    type V = HitView;

    open spec fn view(&self) -> HitView {
        HitView { name: self.name@, score: self.score as nat }
    }
}

/// Mathematical model of a query's outcome.
#[verifier::ext_equal]
pub ghost enum OutcomeView {
    Results(Seq<HitView>),
    Failure(QueryError),
}

/// What a query produced: a ranked result list, or the failure that stands
/// in for it. Failures travel on the same path as results.
pub enum QueryOutcome {
    Results(Vec<SearchHit>),
    Failure(QueryError),
}

impl View for QueryOutcome {
    type V = OutcomeView;

    open spec fn view(&self) -> OutcomeView {
        match self {
            QueryOutcome::Results(hits) => OutcomeView::Results(
                hits@.map_values(|h: SearchHit| h@),
            ),
            QueryOutcome::Failure(e) => OutcomeView::Failure(*e),
        }
    }
}

/// Mathematical model of a query response.
#[verifier::ext_equal]
pub ghost struct ResponseView {
    pub id: u64,
    pub outcome: OutcomeView,
}

/// The engine's answer to the request that carries the same id; produced
/// exactly once per request and consumed by the caller that submitted it.
pub struct QueryResponse {
    pub id: u64,
    pub outcome: QueryOutcome,
}

impl View for QueryResponse {
    type V = ResponseView;

    open spec fn view(&self) -> ResponseView {
        ResponseView { id: self.id, outcome: self.outcome@ }
    }
}

/// Mathematical model of one inbound item.
#[verifier::ext_equal]
pub ghost enum MessageView {
    Query(RequestView),
    Ingest(DocumentView),
    Shutdown,
}

/// One item on the engine's inbound channel: a query, an ingest instruction
/// carrying a finished document, or the shutdown signal.
pub enum InboundMessage {
    Query(QueryRequest),
    Ingest(DocumentSchema),
    Shutdown,
}

impl View for InboundMessage {
    type V = MessageView;

    open spec fn view(&self) -> MessageView {
        match self {
            InboundMessage::Query(req) => MessageView::Query(req@),
            InboundMessage::Ingest(doc) => MessageView::Ingest(doc@),
            InboundMessage::Shutdown => MessageView::Shutdown,
        }
    }
}

/// An inbound item is well formed when any document it carries is.
pub open spec fn msg_wf(m: MessageView) -> bool {
    m matches MessageView::Ingest(d) ==> d.wf()
}

/// Every item of an inbound sequence is well formed.
pub open spec fn msgs_wf(s: Seq<MessageView>) -> bool {
    forall|i: int| 0 <= i < s.len() ==> #[trigger] msg_wf(s[i])
}

/// The result list for query `q` over the documents `docs`, in ingestion
/// order: one hit per document whose body contains `q`, scored by the
/// number of occurrences.
pub open spec fn spec_search(docs: Seq<DocumentView>, q: Seq<char>) -> Seq<HitView>
    decreases docs.len(),
{
    if docs.len() == 0 {
        Seq::<HitView>::empty()
    } else {
        let rest = spec_search(docs.drop_last(), q);
        let d = docs.last();
        if occurrence_total(d.body, q) > 0 {
            rest.push(HitView { name: d.name, score: occurrence_total(d.body, q) })
        } else {
            rest
        }
    }
}

} // verus!
