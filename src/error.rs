use tantivy::query::QueryParserError;
use tantivy::TantivyError;
use vstd::prelude::*;

verus! {

/// Why an indexing or search operation failed.
#[derive(Debug)]
pub enum IndexError {
    /// No writer session could be opened on the index.
    Writer(TantivyError),
    /// Adding a document or committing the session failed.
    Write(TantivyError),
    /// No reader could be opened on the index.
    Reader(TantivyError),
    /// The query text was rejected by the parser.
    Query(QueryParserError),
    /// Running the query or loading a hit's stored fields failed.
    Search(TantivyError),
}

} // verus!
