//! The canonical indexed-document record.

use vstd::prelude::*;

verus! {

/// Mathematical model of a document: its display name and its text.
pub ghost struct DocumentView {
    pub name: Seq<char>,
    pub body: Seq<char>,
}

/// Canonical indexed-document value. Created once by an indexer, consumed
/// once by the engine's ingest step, never mutated afterward.
#[derive(Debug)]
pub struct DocumentSchema {
    /// Non-empty stable display identifier, usually the file name.
    pub name: String,
    /// Extracted text content.
    pub body: String,
}

impl View for DocumentSchema {
    type V = DocumentView;

    open spec fn view(&self) -> DocumentView {
        DocumentView { name: self.name@, body: self.body@ }
    }
}

impl DocumentView {
    /// A document is well formed when its display name is non-empty.
    pub open spec fn wf(self) -> bool {
        self.name.len() > 0
    }
}

impl DocumentSchema {
    /// A document is well formed when its display name is non-empty.
    pub open spec fn wf(&self) -> bool {
        self@.wf()
    }
}

} // verus!
