//! The calls into the tantivy index engine that the indexing logic makes.
//!
//! Field handles travel through the library as their numeric ids; the
//! contents of a tantivy document are seen through `doc_fields`.
use tantivy::collector::TopDocs;
use crate::error::IndexError;
use crate::results::{score_is_nan, score_key};
use tantivy::query::{QueryParser, QueryParserError};
use tantivy::schema::{Field, Value};
use tantivy::{
    Document, Index, IndexReader, IndexWriter, ReloadPolicy, Searcher, TantivyError,
    Term,
};
use vstd::prelude::*;

verus! {

#[verifier::external_type_specification]
#[verifier::external_body]
pub struct ExIndex(Index);

#[verifier::external_type_specification]
#[verifier::external_body]
pub struct ExIndexWriter(IndexWriter);

#[verifier::external_type_specification]
#[verifier::external_body]
pub struct ExIndexReader(IndexReader);

#[verifier::external_type_specification]
#[verifier::external_body]
pub struct ExSearcher(Searcher);

#[verifier::external_type_specification]
#[verifier::external_body]
pub struct ExDocument(Document);

#[verifier::external_type_specification]
#[verifier::external_body]
pub struct ExQueryParser(QueryParser);

#[verifier::external_type_specification]
#[verifier::external_body]
pub struct ExTantivyError(TantivyError);

#[verifier::external_type_specification]
#[verifier::external_body]
pub struct ExQueryParserError(QueryParserError);

/// The `(field id, value)` pairs of a tantivy document, in the order they
/// were added; a value is `Some` of its characters where it is a string.
pub uninterp spec fn doc_fields(d: Document) -> Seq<(u32, Option<Seq<char>>)>;

/// The value of the first pair of `fields` whose field id is `field`, where
/// that value is a string.
pub open spec fn first_text_in(fields: Seq<(u32, Option<Seq<char>>)>, field: u32) -> Option<
    Seq<char>,
>
    decreases fields.len(),
{
    if fields.len() == 0 {
        None
    } else if fields[0].0 == field {
        fields[0].1
    } else {
        first_text_in(fields.drop_first(), field)
    }
}

/// The id of the field of the index's schema that has this name, if any.
/// The schema of an index is fixed when the index is created.
pub uninterp spec fn schema_field_of(index: Index, name: Seq<char>) -> Option<u32>;

/// Whether `field` is a field of the index's schema that is indexed.
pub uninterp spec fn field_indexed_of(index: Index, field: u32) -> bool;

/// Whether `field` is a field of the schema of the writer's index that is
/// indexed.
pub uninterp spec fn writer_indexed_field(w: IndexWriter, field: u32) -> bool;

/// Whether the default fields of the parser are fields of its schema.
pub uninterp spec fn parser_fields_known(p: QueryParser) -> bool;

/// A field id that the index's schema gives for some name.
pub open spec fn known_field(index: Index, field: u32) -> bool {
    exists|name: Seq<char>| schema_field_of(index, name) == Some(field)
}

/// The pairs of a document, as `doc_fields` gives them.
pub type DocFields = Seq<(u32, Option<Seq<char>>)>;

/// An operation handed to a writer session: a deletion of the documents
/// whose field holds a text (`Some((field, text))`, no pairs), or the
/// addition of a document with the given pairs (`None`).
pub type WriterOp = (Option<(u32, Seq<char>)>, DocFields);

pub open spec fn delete_op(field: u32, text: Seq<char>) -> WriterOp {
    (Some((field, text)), Seq::empty())
}

pub open spec fn add_op(fields: DocFields) -> WriterOp {
    (None, fields)
}

/// The operations handed to a writer session since its last commit, in
/// order.
pub uninterp spec fn writer_queue(w: IndexWriter) -> Seq<WriterOp>;

/// The operations that commits of a writer session have published, one
/// sequence per commit, oldest first.
pub uninterp spec fn writer_commits(w: IndexWriter) -> Seq<Seq<WriterOp>>;

/// Relies on `Index::schema` and `Schema::get_field`: the id of the field of
/// the index's schema that has this name, if there is one.
#[verifier::external_body]
pub(crate) fn schema_field(index: &Index, name: &str) -> (r: Option<u32>)
    ensures
        r == schema_field_of(*index, name@),
{
    index.schema().get_field(name).map(|f| f.field_id())
}

/// Relies on `Schema::get_field_entry` and `FieldEntry::is_indexed`: whether
/// the field, which must be one of the schema's (else the lookup panics), is
/// indexed.
#[verifier::external_body]
pub(crate) fn field_indexed(index: &Index, field: u32) -> (r: bool)
    requires
        known_field(*index, field),
    ensures
        r == field_indexed_of(*index, field),
{
    index.schema().get_field_entry(Field::from_field_id(field)).is_indexed()
}

/// Relies on `QueryParser::for_index`: a parser over the index's schema
/// whose unqualified terms search the two given fields.
#[verifier::external_body]
pub(crate) fn parser_for(index: &Index, first: u32, second: u32) -> (r: QueryParser)
    requires
        known_field(*index, first),
        known_field(*index, second),
    ensures
        parser_fields_known(r),
{
    QueryParser::for_index(index, vec![Field::from_field_id(first), Field::from_field_id(second)])
}

/// Relies on `Document::new`: a document without fields.
#[verifier::external_body]
pub(crate) fn new_document() -> (r: Document)
    ensures
        doc_fields(r) == Seq::<(u32, Option<Seq<char>>)>::empty(),
{
    Document::new()
}

/// Relies on `Document::add_text`: appends the pair (field, string value).
#[verifier::external_body]
pub(crate) fn add_text(doc: &mut Document, field: u32, text: &str)
    ensures
        doc_fields(*final(doc)) == doc_fields(*old(doc)).push((field, Some(text@))),
{
    doc.add_text(Field::from_field_id(field), text)
}

/// Relies on `Document::get_first`: the first value stored for the field,
/// kept where it is a string.
#[verifier::external_body]
pub(crate) fn first_text(doc: &Document, field: u32) -> (r: Option<String>)
    ensures
        match r {
            Some(s) => first_text_in(doc_fields(*doc), field) == Some(s@),
            None => first_text_in(doc_fields(*doc), field) is None,
        },
{
    match doc.get_first(Field::from_field_id(field)) {
        Some(Value::Str(s)) => Some(s.to_string()),
        _ => None,
    }
}

/// Relies on `Index::writer`: a new writer session with the given memory
/// budget, with nothing queued or committed yet, or the engine's error
/// (another writer holds the lock, the budget is too small).
#[verifier::external_body]
pub(crate) fn open_writer(index: &Index, budget: usize) -> (r: Result<IndexWriter, TantivyError>)
    ensures
        r matches Ok(w) ==> writer_queue(w) == Seq::<WriterOp>::empty() && writer_commits(w)
            == Seq::<Seq<WriterOp>>::empty() && forall|f: u32|
            #[trigger] writer_indexed_field(w, f) == field_indexed_of(*index, f),
{
    index.writer(budget)
}

/// Relies on `IndexWriter::delete_term` and `Term::from_field_text`: queues
/// the deletion of the documents whose field holds exactly this text. On a
/// field that is not indexed tantivy queues nothing, and on an id outside
/// the schema it panics: the field must be an indexed one.
#[verifier::external_body]
pub(crate) fn delete_text_term(writer: &mut IndexWriter, field: u32, text: &str)
    requires
        writer_indexed_field(*old(writer), field),
    ensures
        forall|f: u32| #[trigger]
            writer_indexed_field(*final(writer), f) == writer_indexed_field(*old(writer), f),
        writer_queue(*final(writer)) == writer_queue(*old(writer)).push(delete_op(field, text@)),
        writer_commits(*final(writer)) == writer_commits(*old(writer)),
{
    writer.delete_term(Term::from_field_text(Field::from_field_id(field), text));
}

/// Relies on `IndexWriter::add_document`: queues the document for the next
/// commit, or fails when the indexing workers are gone.
#[verifier::external_body]
pub(crate) fn add_document(writer: &mut IndexWriter, doc: Document) -> (r: Result<u64, TantivyError>)
    ensures
        r is Ok ==> writer_queue(*final(writer)) == writer_queue(*old(writer)).push(
            add_op(doc_fields(doc)),
        ),
        writer_commits(*final(writer)) == writer_commits(*old(writer)),
        forall|f: u32| #[trigger]
            writer_indexed_field(*final(writer), f) == writer_indexed_field(*old(writer), f),
{
    writer.add_document(doc)
}

/// Relies on `IndexWriter::commit`: publishes every queued operation, so
/// that readers that reload on commit see them.
#[verifier::external_body]
pub(crate) fn commit(writer: &mut IndexWriter) -> (r: Result<u64, TantivyError>)
    ensures
        r is Ok ==> writer_commits(*final(writer)) == writer_commits(*old(writer)).push(
            writer_queue(*old(writer)),
        ) && writer_queue(*final(writer)) == Seq::<WriterOp>::empty(),
{
    writer.commit()
}

/// Relies on `IndexReaderBuilder::try_into`: a reader that reloads on every
/// commit.
#[verifier::external_body]
pub(crate) fn open_reader(index: &Index) -> (r: Result<IndexReader, TantivyError>) {
    index.reader_builder().reload_policy(ReloadPolicy::OnCommit).try_into()
}

/// Relies on `IndexReader::searcher`: a searcher over the last loaded commit.
#[verifier::external_body]
pub(crate) fn searcher_of(reader: &IndexReader) -> (r: Searcher) {
    reader.searcher()
}

/// Relies on `QueryParser::parse_query`, then `Searcher::search` with
/// `TopDocs::with_limit` (which panics on a zero limit), then `Searcher::doc`
/// on each hit: the parser's error, the engine's error, or at most `limit`
/// hits, each its score (as the bits of the `f32`) and the stored fields of
/// its document. The hits are sorted by descending score where no score is
/// NaN (the collector compares scores with `partial_cmp`). The parsed query is a trait object and the addresses index
/// this searcher's segments, so neither leaves this call.
#[verifier::external_body]
pub(crate) fn parse_and_search(
    searcher: &Searcher,
    parser: &QueryParser,
    text: &str,
    limit: usize,
) -> (r: Result<Vec<(u32, Document)>, IndexError>)
    requires
        limit > 0,
        parser_fields_known(*parser),
    ensures
        r matches Ok(hits) ==> hits@.len() <= limit,
        r matches Ok(hits) ==> ((forall|i: int|
            0 <= i < hits@.len() ==> !score_is_nan(#[trigger] hits@[i].0)) ==> forall|i: int, j: int|
            0 <= i < j < hits@.len() ==> score_key(#[trigger] hits@[i].0) >= score_key(
                #[trigger] hits@[j].0,
            )),
        r matches Err(e) ==> (e is Query || e is Search),
{
    let query = parser.parse_query(text).map_err(IndexError::Query)?;
    let hits = searcher.search(&query, &TopDocs::with_limit(limit)).map_err(IndexError::Search)?;
    hits.into_iter()
        .map(|(score, addr)| Ok((score.to_bits(), searcher.doc(addr).map_err(IndexError::Search)?)))
        .collect()
}

} // verus!
