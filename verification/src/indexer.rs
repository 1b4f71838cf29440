//! The file-indexing capability: converts one file's content into a
//! [`DocumentSchema`], selected by file extension.
//!
//! Reading a file from disk happens outside the library; an indexer is
//! handed the outcome of that read as a plain [`ReadOutcome`] value and owns
//! the conversion and the error classification.

use vstd::prelude::*;
use crate::errors::IndexingError;
use crate::schema::DocumentSchema;
use crate::text::str_eq;

verus! {

/// What reading a file produced: its text, or the reason there is none.
pub enum ReadOutcome {
    /// The file was read and decoded; this is its text.
    Content(String),
    /// The file does not exist.
    Missing,
    /// The file exists but reading it failed.
    IoFailure,
    /// The file's bytes are not in the expected encoding.
    BadEncoding,
}

/// The capability an indexer variant offers: a pure predicate over file
/// extensions, and a conversion from raw file text into an indexed document.
/// New file types are added by writing a new variant, not by changing
/// dispatch logic.
pub trait Indexer: Sized {
    /// Which extensions this indexer accepts; a pure function of the
    /// extension alone.
    spec fn spec_supports(&self, ext: Seq<char>) -> bool;

    /// How this indexer turns raw file text into the indexed body.
    spec fn spec_convert(&self, raw: Seq<char>) -> Seq<char>;

    /// Whether this indexer handles files with the given extension.
    fn supports_extension(&self, extension: &str) -> (r: bool)
        ensures
            r == self.spec_supports(extension@),
    ;

    /// Builds the indexed document for a file called `name` from the outcome
    /// of reading it, or classifies the failure.
    fn index_file(&self, name: &str, content: ReadOutcome) -> (r: Result<
        DocumentSchema,
        IndexingError,
    >)
        requires
            name@.len() > 0,
        ensures
            (match content {
                ReadOutcome::Content(raw) => {
                    &&& r is Ok
                    &&& r->Ok_0@.name == name@
                    &&& r->Ok_0@.body == self.spec_convert(raw@)
                    &&& r->Ok_0.wf()
                },
                ReadOutcome::Missing => r == Err::<DocumentSchema, IndexingError>(
                    IndexingError::NotFound,
                ),
                ReadOutcome::IoFailure => r == Err::<DocumentSchema, IndexingError>(
                    IndexingError::ReadFailure,
                ),
                ReadOutcome::BadEncoding => r == Err::<DocumentSchema, IndexingError>(
                    IndexingError::DecodeFailure,
                ),
            }),
    ;
}

/// Indexes plain text files: accepts the `txt` extension and takes the file
/// text verbatim as the document body.
pub struct TextIndexer;

impl Indexer for TextIndexer {
    open spec fn spec_supports(&self, ext: Seq<char>) -> bool {
        ext == "txt"@
    }

    open spec fn spec_convert(&self, raw: Seq<char>) -> Seq<char> {
        raw
    }

    fn supports_extension(&self, extension: &str) -> (r: bool) {
        str_eq(extension, "txt")
    }

    fn index_file(&self, name: &str, content: ReadOutcome) -> (r: Result<
        DocumentSchema,
        IndexingError,
    >) {
        match content {
            ReadOutcome::Content(raw) => Ok(
                DocumentSchema { name: name.to_owned(), body: raw },
            ),
            ReadOutcome::Missing => Err(IndexingError::NotFound),
            ReadOutcome::IoFailure => Err(IndexingError::ReadFailure),
            ReadOutcome::BadEncoding => Err(IndexingError::DecodeFailure),
        }
    }
}

/// `supports` is deterministic for every indexer: equal extensions always
/// yield the same verdict.
pub proof fn lemma_supports_deterministic<I: Indexer>(ix: &I, e1: Seq<char>, e2: Seq<char>)
    requires
        e1 == e2,
    ensures
        ix.spec_supports(e1) == ix.spec_supports(e2),
{
}

} // verus!
