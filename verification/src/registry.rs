//! The indexer registry: an ordered collection of indexer variants,
//! dispatched over by the `supports` predicate with first-registered-wins
//! tie-breaking.

use vstd::prelude::*;
use crate::errors::IndexingError;
use crate::indexer::{Indexer, TextIndexer};
use crate::text::{extension_of, spec_extension};

verus! {

/// The registered indexer variants, one per supported file type.
pub enum IndexerKind {
    /// Plain text files.
    Text(TextIndexer),
}

impl Indexer for IndexerKind {
    open spec fn spec_supports(&self, ext: Seq<char>) -> bool {
        match self {
            IndexerKind::Text(ix) => ix.spec_supports(ext),
        }
    }

    open spec fn spec_convert(&self, raw: Seq<char>) -> Seq<char> {
        match self {
            IndexerKind::Text(ix) => ix.spec_convert(raw),
        }
    }

    fn supports_extension(&self, extension: &str) -> (r: bool) {
        match self {
            IndexerKind::Text(ix) => ix.supports_extension(extension),
        }
    }

    fn index_file(&self, name: &str, content: crate::indexer::ReadOutcome) -> (r: Result<
        crate::schema::DocumentSchema,
        IndexingError,
    >) {
        match self {
            IndexerKind::Text(ix) => ix.index_file(name, content),
        }
    }
}

/// `i` is the position of the first registered indexer that supports `ext`.
pub open spec fn is_first_match(s: Seq<IndexerKind>, ext: Seq<char>, i: int) -> bool {
    &&& 0 <= i < s.len()
    &&& s[i].spec_supports(ext)
    &&& forall|j: int| 0 <= j < i ==> !s[j].spec_supports(ext)
}

/// No registered indexer supports `ext`.
pub open spec fn no_match(s: Seq<IndexerKind>, ext: Seq<char>) -> bool {
    forall|j: int| 0 <= j < s.len() ==> !s[j].spec_supports(ext)
}

/// Whether dispatching a file called `path` over the indexers `s` selects
/// one: the name has an extension and some registered indexer supports it.
pub open spec fn dispatch_succeeds(s: Seq<IndexerKind>, path: Seq<char>) -> bool {
    match spec_extension(path) {
        Some(ext) => !no_match(s, ext),
        None => false,
    }
}

/// Ordered collection of indexer variants; dispatch picks the first
/// registered variant whose `supports` accepts the file's extension.
pub struct Registry {
    indexers: Vec<IndexerKind>,
}

impl View for Registry {
    type V = Seq<IndexerKind>;

    closed spec fn view(&self) -> Seq<IndexerKind> {
        self.indexers@
    }
}

impl Registry {
    /// An empty registry.
    pub fn new() -> (r: Registry)
        ensures
            r@ == Seq::<IndexerKind>::empty(),
    {
        Registry { indexers: Vec::new() }
    }

    /// Appends an indexer variant; later dispatches consider it after all
    /// previously registered ones.
    pub fn register(&mut self, ix: IndexerKind)
        ensures
            final(self)@ == old(self)@.push(ix),
    {
        self.indexers.push(ix);
    }

    /// How many indexer variants are registered.
    pub fn len(&self) -> (n: usize)
        ensures
            n == self@.len(),
    {
        self.indexers.len()
    }

    /// The indexer registered at position `i`.
    pub fn indexer_at(&self, i: usize) -> (ix: &IndexerKind)
        requires
            i < self@.len(),
        ensures
            *ix == self@[i as int],
    {
        &self.indexers[i]
    }

    /// Position of the first registered indexer that supports the extension
    /// of the file called `path`; `UnsupportedExtension` when the name has
    /// no extension or no registered indexer supports it.
    pub fn dispatch(&self, path: &str) -> (r: Result<usize, IndexingError>)
        ensures
            (match r {
                Ok(i) => {
                    &&& spec_extension(path@) is Some
                    &&& is_first_match(self@, spec_extension(path@)->0, i as int)
                },
                Err(e) => {
                    &&& e == IndexingError::UnsupportedExtension
                    &&& !dispatch_succeeds(self@, path@)
                },
            }),
    {
        let ext = match extension_of(path) {
            Some(e) => e,
            None => {
                return Err(IndexingError::UnsupportedExtension);
            },
        };
        let n = self.indexers.len();
        let mut i: usize = 0;
        while i < n
            invariant
                n == self.indexers.len(),
                i <= n,
                spec_extension(path@) == Some(ext@),
                forall|j: int| 0 <= j < i ==> !self@[j].spec_supports(ext@),
            decreases n - i,
        {
            if self.indexers[i].supports_extension(ext) {
                return Ok(i);
            }
            i = i + 1;
        }
        Err(IndexingError::UnsupportedExtension)
    }
}

/// When exactly one registered indexer supports an extension, dispatch
/// selects precisely that one: any first match coincides with the sole
/// supporting position.
pub proof fn lemma_unique_match_dispatch(s: Seq<IndexerKind>, ext: Seq<char>, i: int, k: int)
    requires
        is_first_match(s, ext, i),
        0 <= k < s.len(),
        s[k].spec_supports(ext),
        forall|j: int| 0 <= j < s.len() && j != k ==> !s[j].spec_supports(ext),
    ensures
        i == k,
{
    assert(s[i].spec_supports(ext));
}

} // verus!
