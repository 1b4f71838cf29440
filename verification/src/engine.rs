//! The query engine: the single owner of the mutable document index.
//!
//! All interaction goes through [`InboundMessage`] and [`QueryResponse`]
//! values; the index itself never leaves the engine. One message is fully
//! processed before the next begins, so ingestion and query handling are
//! strictly serialized and every request yields exactly one response.

use vstd::prelude::*;
use vstd::string::StrSliceExecFns;
use crate::errors::QueryError;
use crate::protocol::{
    HitView, InboundMessage, MessageView, OutcomeView, QueryOutcome, QueryRequest, QueryResponse,
    RequestView, ResponseView, SearchHit, msg_wf, msgs_wf, spec_search,
};
use crate::schema::{DocumentSchema, DocumentView};
use crate::text::{contains_query, lemma_occurrence_total_positive, occurrence_count,
    occurrence_total};

verus! {

/// Mathematical model of the engine: the documents merged so far, in
/// ingestion order, and whether the shutdown signal has arrived.
#[verifier::ext_equal]
pub ghost struct EngineView {
    pub docs: Seq<DocumentView>,
    pub stopped: bool,
}

impl EngineView {
    /// Every merged document is well formed.
    pub open spec fn wf(self) -> bool {
        forall|i: int| 0 <= i < self.docs.len() ==> self.docs[i].wf()
    }
}

/// The outcome the engine owes for a request, given its current state:
/// `ServiceStopping` once shut down, `MalformedQuery` for an empty query,
/// and otherwise the result list over the current documents.
pub open spec fn spec_outcome(e: EngineView, req: RequestView) -> OutcomeView {
    if e.stopped {
        OutcomeView::Failure(QueryError::ServiceStopping)
    } else if req.text.len() == 0 {
        OutcomeView::Failure(QueryError::MalformedQuery)
    } else {
        OutcomeView::Results(spec_search(e.docs, req.text))
    }
}

/// One engine iteration: the state after the message and the response it
/// sends back, if any. A query always produces exactly one response with
/// the request's own id; an ingest merges the document unless the engine
/// has stopped; shutdown stops the engine.
pub open spec fn spec_step(e: EngineView, m: MessageView) -> (EngineView, Option<ResponseView>) {
    match m {
        MessageView::Query(req) => (
            e,
            Some(ResponseView { id: req.id, outcome: spec_outcome(e, req) }),
        ),
        MessageView::Ingest(d) => (
            if e.stopped {
                e
            } else {
                EngineView { docs: e.docs.push(d), ..e }
            },
            None,
        ),
        MessageView::Shutdown => (EngineView { stopped: true, ..e }, None),
    }
}

/// The engine run over a whole message sequence, first arrival first: the
/// final state and the responses in the order they were produced.
pub open spec fn spec_run(e: EngineView, msgs: Seq<MessageView>) -> (EngineView, Seq<ResponseView>)
    decreases msgs.len(),
{
    if msgs.len() == 0 {
        (e, Seq::<ResponseView>::empty())
    } else {
        let prev = spec_run(e, msgs.drop_last());
        let stepped = spec_step(prev.0, msgs.last());
        (
            stepped.0,
            match stepped.1 {
                Some(r) => prev.1.push(r),
                None => prev.1,
            },
        )
    }
}

/// The correlation ids of the queries in an inbound sequence, in arrival
/// order.
pub open spec fn query_ids(msgs: Seq<MessageView>) -> Seq<u64>
    decreases msgs.len(),
{
    if msgs.len() == 0 {
        Seq::<u64>::empty()
    } else {
        let rest = query_ids(msgs.drop_last());
        match msgs.last() {
            MessageView::Query(req) => rest.push(req.id),
            _ => rest,
        }
    }
}

/// Exactly one response is produced per query request, and the responses
/// come in the arrival order of their requests: a run's response ids are
/// precisely the inbound queries' ids, in order.
pub proof fn lemma_one_response_per_request(e: EngineView, msgs: Seq<MessageView>)
    ensures
        spec_run(e, msgs).1.map_values(|r: ResponseView| r.id) == query_ids(msgs),
    decreases msgs.len(),
{
    if msgs.len() > 0 {
        lemma_one_response_per_request(e, msgs.drop_last());
        assert(spec_run(e, msgs).1.map_values(|r: ResponseView| r.id) =~= query_ids(msgs));
    }
}

/// Single-owner worker state: holds the only handle to the searchable
/// document index.
pub struct QueryEngine {
    docs: Vec<DocumentSchema>,
    stopped: bool,
}

impl View for QueryEngine {
    type V = EngineView;

    closed spec fn view(&self) -> EngineView {
        EngineView {
            docs: self.docs@.map_values(|d: DocumentSchema| d@),
            stopped: self.stopped,
        }
    }
}

impl QueryEngine {
    /// A fresh engine with an empty index.
    pub fn new() -> (e: QueryEngine)
        ensures
            e@.docs == Seq::<DocumentView>::empty(),
            !e@.stopped,
            e@.wf(),
    {
        let e = QueryEngine { docs: Vec::new(), stopped: false };
        proof {
            assert(e@.docs =~= Seq::<DocumentView>::empty());
        }
        e
    }

    /// How many documents the index holds.
    pub fn doc_count(&self) -> (n: usize)
        ensures
            n == self@.docs.len(),
    {
        self.docs.len()
    }

    /// Whether the shutdown signal has arrived.
    pub fn is_stopped(&self) -> (b: bool)
        ensures
            b == self@.stopped,
    {
        self.stopped
    }

    /// Executes `q` against the current index state: one hit per document
    /// whose body contains `q`, in ingestion order, scored by occurrence
    /// count.
    fn search(&self, q: &str) -> (hits: Vec<SearchHit>)
        requires
            q@.len() >= 1,
        ensures
            hits@.map_values(|h: SearchHit| h@) == spec_search(self@.docs, q@),
    {
        let mut hits: Vec<SearchHit> = Vec::new();
        let n = self.docs.len();
        let mut i: usize = 0;
        proof {
            assert(self@.docs.subrange(0, 0) =~= Seq::<DocumentView>::empty());
            assert(hits@.map_values(|h: SearchHit| h@) =~= Seq::<HitView>::empty());
        }
        while i < n
            invariant
                n == self.docs.len(),
                i <= n,
                q@.len() >= 1,
                hits@.map_values(|h: SearchHit| h@) == spec_search(
                    self@.docs.subrange(0, i as int),
                    q@,
                ),
            decreases n - i,
        {
            let score = occurrence_count(self.docs[i].body.as_str(), q);
            proof {
                assert(self@.docs.subrange(0, i + 1).drop_last() =~= self@.docs.subrange(
                    0,
                    i as int,
                ));
                assert(self@.docs.subrange(0, i + 1).last() == self@.docs[i as int]);
            }
            if score > 0 {
                let hit = SearchHit { name: self.docs[i].name.clone(), score };
                hits.push(hit);
            }
            proof {
                assert(hits@.map_values(|h: SearchHit| h@) =~= spec_search(
                    self@.docs.subrange(0, i + 1),
                    q@,
                ));
            }
            i = i + 1;
        }
        proof {
            assert(self@.docs.subrange(0, n as int) =~= self@.docs);
        }
        hits
    }

    /// Processes one inbound item, exactly as [`spec_step`] says: the
    /// response (for a query) carries the request's own id, and the index
    /// changes only by merging an ingested document.
    pub fn handle(&mut self, msg: InboundMessage) -> (resp: Option<QueryResponse>)
        requires
            old(self)@.wf(),
            msg_wf(msg@),
        ensures
            spec_step(old(self)@, msg@).0.wf(),
            final(self)@ == spec_step(old(self)@, msg@).0,
            (match resp {
                Some(r) => Some(r@),
                None => None::<ResponseView>,
            }) == spec_step(old(self)@, msg@).1,
    {
        match msg {
            InboundMessage::Query(req) => {
                let outcome = if self.stopped {
                    QueryOutcome::Failure(QueryError::ServiceStopping)
                } else if req.text.as_str().unicode_len() == 0 {
                    QueryOutcome::Failure(QueryError::MalformedQuery)
                } else {
                    QueryOutcome::Results(self.search(req.text.as_str()))
                };
                Some(QueryResponse { id: req.id, outcome })
            },
            InboundMessage::Ingest(doc) => {
                if !self.stopped {
                    self.docs.push(doc);
                    proof {
                        assert(self@.docs =~= spec_step(old(self)@, msg@).0.docs);
                    }
                }
                None
            },
            InboundMessage::Shutdown => {
                self.stopped = true;
                None
            },
        }
    }

    /// Runs the engine over a whole inbound sequence in arrival order,
    /// collecting the responses in the order they were produced.
    pub fn process_all(&mut self, msgs: Vec<InboundMessage>) -> (resps: Vec<QueryResponse>)
        requires
            old(self)@.wf(),
            msgs_wf(msgs@.map_values(|m: InboundMessage| m@)),
        ensures
            final(self)@.wf(),
            final(self)@ == spec_run(old(self)@, msgs@.map_values(|m: InboundMessage| m@)).0,
            resps@.map_values(|r: QueryResponse| r@) == spec_run(
                old(self)@,
                msgs@.map_values(|m: InboundMessage| m@),
            ).1,
    {
        let ghost all = msgs@.map_values(|m: InboundMessage| m@);
        let ghost done = Seq::<MessageView>::empty();
        let mut resps: Vec<QueryResponse> = Vec::new();
        let mut rest = msgs;
        proof {
            assert(done + rest@.map_values(|m: InboundMessage| m@) =~= all);
            assert(resps@.map_values(|r: QueryResponse| r@) =~= Seq::<ResponseView>::empty());
        }
        while rest.len() > 0
            invariant
                self@.wf(),
                done + rest@.map_values(|m: InboundMessage| m@) == all,
                msgs_wf(rest@.map_values(|m: InboundMessage| m@)),
                self@ == spec_run(old(self)@, done).0,
                resps@.map_values(|r: QueryResponse| r@) == spec_run(old(self)@, done).1,
            decreases rest@.len(),
        {
            let ghost rest0 = rest@;
            let m = rest.remove(0);
            let ghost done_next = done.push(m@);
            proof {
                assert(rest0.map_values(|x: InboundMessage| x@)[0] == m@);
                assert(msg_wf(m@));
                let rest_v = rest@.map_values(|x: InboundMessage| x@);
                assert forall|i: int| 0 <= i < rest_v.len() implies #[trigger] msg_wf(
                    rest_v[i],
                ) by {
                    assert(rest@[i] == rest0[i + 1]);
                    assert(msg_wf(rest0.map_values(|x: InboundMessage| x@)[i + 1]));
                }
                assert(msgs_wf(rest_v));
                assert(done_next.drop_last() =~= done);
                assert(done_next + rest@.map_values(|x: InboundMessage| x@) =~= all);
            }
            let r = self.handle(m);
            match r {
                Some(resp) => {
                    resps.push(resp);
                    proof {
                        assert(resps@.map_values(|x: QueryResponse| x@) =~= spec_run(
                            old(self)@,
                            done_next,
                        ).1);
                    }
                },
                None => {},
            }
            proof {
                done = done_next;
            }
        }
        proof {
            assert(rest@.map_values(|m: InboundMessage| m@) =~= Seq::<MessageView>::empty());
            assert(done =~= all);
        }
        resps
    }

    /// Answers every submitted-but-unanswered request with an explicit
    /// `ServiceStopping` failure; used on shutdown so that no request is
    /// left permanently unanswered.
    pub fn drain_pending(pending: Vec<QueryRequest>) -> (resps: Vec<QueryResponse>)
        ensures
            resps@.len() == pending@.len(),
            forall|i: int|
                0 <= i < pending@.len() ==> resps@[i]@ == (ResponseView {
                    id: pending@[i].id,
                    outcome: OutcomeView::Failure(QueryError::ServiceStopping),
                }),
    {
        let mut resps: Vec<QueryResponse> = Vec::new();
        let n = pending.len();
        let mut i: usize = 0;
        while i < n
            invariant
                n == pending@.len(),
                i <= n,
                resps@.len() == i,
                forall|j: int|
                    0 <= j < i ==> resps@[j]@ == (ResponseView {
                        id: pending@[j].id,
                        outcome: OutcomeView::Failure(QueryError::ServiceStopping),
                    }),
            decreases n - i,
        {
            resps.push(
                QueryResponse {
                    id: pending[i].id,
                    outcome: QueryOutcome::Failure(QueryError::ServiceStopping),
                },
            );
            i = i + 1;
        }
        resps
    }
}

/// Once the engine has stopped, every query is still answered — with an
/// explicit `ServiceStopping` failure under the request's own id, never
/// left hanging.
pub proof fn lemma_stopped_engine_answers_stopping(e: EngineView, req: RequestView)
    requires
        e.stopped,
    ensures
        spec_step(e, MessageView::Query(req)).1 == Some(
            ResponseView {
                id: req.id,
                outcome: OutcomeView::Failure(QueryError::ServiceStopping),
            },
        ),
        spec_step(e, MessageView::Query(req)).0 == e,
{
}

/// A document just merged into the index is found by every query that
/// occurs in its body: the new result list ends with a hit carrying that
/// document's name and its occurrence count.
pub proof fn lemma_ingested_document_found(docs: Seq<DocumentView>, d: DocumentView, q: Seq<char>)
    requires
        contains_query(d.body, q),
    ensures
        spec_search(docs.push(d), q).len() > 0,
        spec_search(docs.push(d), q).last() == (HitView {
            name: d.name,
            score: occurrence_total(d.body, q),
        }),
{
    lemma_occurrence_total_positive(d.body, q);
    assert(docs.push(d).drop_last() =~= docs);
    assert(docs.push(d).last() == d);
}

} // verus!
