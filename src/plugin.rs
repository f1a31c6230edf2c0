use crate::content::{entries_of, entry_views, index_entries, Block, EntryView, IndexEntry};
use crate::dirty::DirtyTracker;
use crate::engine::{
    add_document, add_op, add_text, commit, delete_op, delete_text_term, doc_fields,
    field_indexed, field_indexed_of, first_text, first_text_in, parser_fields_known,
    writer_indexed_field, new_document, open_reader, open_writer, parse_and_search,
    parser_for, schema_field, schema_field_of, searcher_of, writer_commits, writer_queue,
    WriterOp,
};
use crate::error::IndexError;
use crate::results::{
    collect_results, hit_views, score_key, hits_descending, lemma_results_keep_ranking, results_descending,
    results_of, score_is_nan, skipped_of, SearchResults,
};
use tantivy::query::QueryParser;
use tantivy::{Document, Index};
use vstd::prelude::*;

verus! {

/// Memory budget of one writer session, in bytes.
pub const WRITER_BUDGET: usize = 50_000_000;

/// Number of hits a search returns at most.
pub const TOP_K: usize = 10;

/// The pairs that the index document of an entry holds, in order: the block
/// id, then the title and the body where the entry has them.
pub open spec fn entry_fields(e: EntryView, block_id: u32, title: u32, body: u32) -> Seq<
    (u32, Option<Seq<char>>),
> {
    seq![(block_id, Some(e.block_id))] + match e.title {
        Some(t) => seq![(title, Some(t))],
        None => Seq::empty(),
    } + match e.body {
        Some(b) => seq![(body, Some(b))],
        None => Seq::empty(),
    }
}

/// The operations a reindex pass hands to its writer for the entries, with
/// the field ids `(block_id, title, body)`: for each entry in order, the
/// deletion of the documents with its block id, then the addition of its
/// document.
pub open spec fn pass_ops(es: Seq<EntryView>, f: (u32, u32, u32)) -> Seq<WriterOp>
    decreases es.len(),
{
    if es.len() == 0 {
        Seq::empty()
    } else {
        pass_ops(es.drop_last(), f) + seq![
            delete_op(f.0, es.last().block_id),
            add_op(entry_fields(es.last(), f.0, f.1, f.2)),
        ]
    }
}

/// A pass hands its writer exactly two operations per entry, in the order of
/// the entries: the deletion of the documents with the entry's block id,
/// then the addition of one document that holds that block id first and
/// the entry's title and body where it has them. So a pass adds exactly one
/// document per block and deletes only by the ids of the blocks it indexes.
pub proof fn lemma_pass_ops_per_entry(es: Seq<EntryView>, f: (u32, u32, u32))
    ensures
        pass_ops(es, f).len() == 2 * es.len(),
        forall|k: int| 0 <= k < es.len() ==> #[trigger] entry_ops_at(es, f, k),
    decreases es.len(),
{
    if es.len() > 0 {
        let rest = es.drop_last();
        lemma_pass_ops_per_entry(rest, f);
        let tail = seq![
            delete_op(f.0, es.last().block_id),
            add_op(entry_fields(es.last(), f.0, f.1, f.2)),
        ];
        let ops = pass_ops(es, f);
        assert(ops == pass_ops(rest, f) + tail);
        assert forall|k: int| 0 <= k < es.len() implies #[trigger] entry_ops_at(es, f, k) by {
            if k < rest.len() {
                assert(entry_ops_at(rest, f, k));
                assert(es[k] == rest[k]);
                assert(ops[2 * k] == pass_ops(rest, f)[2 * k]);
                assert(ops[2 * k + 1] == pass_ops(rest, f)[2 * k + 1]);
            } else {
                assert(ops[2 * k] == tail[0]);
                assert(ops[2 * k + 1] == tail[1]);
            }
        }
    }
}

/// The two operations of entry `k` in a pass: the deletion by its block id
/// and the addition of its document, which holds that block id first.
pub open spec fn entry_ops_at(es: Seq<EntryView>, f: (u32, u32, u32), k: int) -> bool {
    &&& pass_ops(es, f)[2 * k] == delete_op(f.0, es[k].block_id)
    &&& pass_ops(es, f)[2 * k + 1] == add_op(entry_fields(es[k], f.0, f.1, f.2))
    &&& entry_fields(es[k], f.0, f.1, f.2)[0] == (f.0, Some(es[k].block_id))
}

/// Ranked hits with the block id read from each hit's stored fields.
pub open spec fn stored_hits(hits: Seq<(u32, Document)>, block_id: u32) -> Seq<
    (u32, Option<Seq<char>>),
> {
    hits.map_values(|h: (u32, Document)| (h.0, first_text_in(doc_fields(h.1), block_id)))
}

/// Builds the index document of an entry.
pub fn entry_document(entry: &IndexEntry, block_id: u32, title: u32, body: u32) -> (r: Document)
    ensures
        doc_fields(r) == entry_fields(entry@, block_id, title, body),
{
    let mut doc = new_document();
    add_text(&mut doc, block_id, entry.block_id.as_str());
    match &entry.title {
        Some(t) => {
            add_text(&mut doc, title, t.as_str());
        },
        None => {},
    }
    match &entry.body {
        Some(b) => {
            add_text(&mut doc, body, b.as_str());
        },
        None => {},
    }
    assert(doc_fields(doc) =~= entry_fields(entry@, block_id, title, body));
    doc
}

/// The indexing subsystem of one document: its dirty counter, its index
/// and the query parser over the index's `title` and `body` fields.
pub struct IndexingPluginImpl {
    queue_reindex: DirtyTracker,
    index: Index,
    query_parser: QueryParser,
    block_id_field: u32,
    title_field: u32,
    body_field: u32,
    committed: Ghost<Seq<Seq<WriterOp>>>,
}

impl IndexingPluginImpl {
    /// The field ids are those that the index's schema gives for their
    /// names, and the `block_id` field is indexed, so that deletions by it
    /// take effect.
    #[verifier::type_invariant]
    spec fn fields_of_index(&self) -> bool {
        &&& schema_field_of(self.index, "block_id"@) == Some(self.block_id_field)
        &&& schema_field_of(self.index, "title"@) == Some(self.title_field)
        &&& schema_field_of(self.index, "body"@) == Some(self.body_field)
        &&& field_indexed_of(self.index, self.block_id_field)
        &&& parser_fields_known(self.query_parser)
    }

    /// The operations that the writer sessions of this value's reindex
    /// passes have committed to the index, one sequence per commit, oldest
    /// first.
    pub closed spec fn committed(&self) -> Seq<Seq<WriterOp>> {
        self.committed@
    }

    /// The ids of the `block_id`, `title` and `body` fields.
    pub closed spec fn fields(&self) -> (u32, u32, u32) {
        (self.block_id_field, self.title_field, self.body_field)
    }

    /// Attaches the subsystem to an index whose schema has the fields
    /// `block_id`, `title` and `body`, with `block_id` indexed; `None` where
    /// one of them is missing or `block_id` is not indexed.
    pub fn new(index: Index, queue_reindex: DirtyTracker) -> (r: Option<IndexingPluginImpl>)
        ensures
            r is Some <==> (schema_field_of(index, "block_id"@) is Some && schema_field_of(
                index,
                "title"@,
            ) is Some && schema_field_of(index, "body"@) is Some && field_indexed_of(
                index,
                schema_field_of(index, "block_id"@)->Some_0,
            )),
            r matches Some(p) ==> (schema_field_of(index, "block_id"@) == Some(p.fields().0)
                && schema_field_of(index, "title"@) == Some(p.fields().1) && schema_field_of(
                index,
                "body"@,
            ) == Some(p.fields().2) && p.committed() == Seq::<Seq<WriterOp>>::empty()),
    {
        let block_id_field = match schema_field(&index, "block_id") {
            Some(f) => f,
            None => {
                return None;
            },
        };
        let title_field = match schema_field(&index, "title") {
            Some(f) => f,
            None => {
                return None;
            },
        };
        let body_field = match schema_field(&index, "body") {
            Some(f) => f,
            None => {
                return None;
            },
        };
        if !field_indexed(&index, block_id_field) {
            return None;
        }
        let query_parser = parser_for(&index, title_field, body_field);
        Some(
            IndexingPluginImpl {
                queue_reindex,
                index,
                query_parser,
                block_id_field,
                title_field,
                body_field,
                committed: Ghost(Seq::empty()),
            },
        )
    }

    /// The counter that mutation listeners mark.
    pub fn dirty_tracker(&self) -> (r: &DirtyTracker) {
        &self.queue_reindex
    }

    /// Writes the entries in one writer session: for each, the documents
    /// with its block id are deleted and its document is added; then the
    /// session is committed, and what it committed is recorded.
    fn re_index_content(&mut self, entries: &Vec<IndexEntry>) -> (r: Result<(), IndexError>)
        ensures
            final(self).fields() == old(self).fields(),
            r is Ok ==> final(self).committed() == old(self).committed().push(
                pass_ops(entry_views(entries@), old(self).fields()),
            ),
            r is Err ==> final(self).committed() == old(self).committed(),
            r matches Err(e) ==> (e is Writer || e is Write),
    {
        let mut writer = match open_writer(&self.index, WRITER_BUDGET) {
            Ok(w) => w,
            Err(e) => {
                return Err(IndexError::Writer(e));
            },
        };
        proof {
            use_type_invariant(&*self);
        }
        let ghost f = self.fields();
        let ghost ev = entry_views(entries@);
        let mut i: usize = 0;
        while i < entries.len()
            invariant
                i <= entries.len(),
                f == self.fields(),
                ev == entry_views(entries@),
                writer_queue(writer) == pass_ops(ev.subrange(0, i as int), f),
                writer_commits(writer) == Seq::<Seq<WriterOp>>::empty(),
                writer_indexed_field(writer, f.0),
            decreases entries.len() - i,
        {
            let entry = &entries[i];
            delete_text_term(&mut writer, self.block_id_field, entry.block_id.as_str());
            let doc = entry_document(entry, self.block_id_field, self.title_field, self.body_field);
            match add_document(&mut writer, doc) {
                Ok(_) => {},
                Err(e) => {
                    return Err(IndexError::Write(e));
                },
            }
            proof {
                assert(ev.subrange(0, i + 1).drop_last() =~= ev.subrange(0, i as int));
                assert(ev.subrange(0, i + 1).last() == entries@[i as int]@);
            }
            i = i + 1;
        }
        assert(ev.subrange(0, i as int) == ev);
        match commit(&mut writer) {
            Ok(_) => {},
            Err(e) => {
                return Err(IndexError::Write(e));
            },
        }
        self.committed = Ghost(self.committed@ + writer_commits(writer));
        assert(self.committed@ =~= old(self).committed@.push(pass_ops(ev, f)));
        Ok(())
    }

    /// One reindex pass, given the number of signals drained from the
    /// counter. With none pending it succeeds, opens no writer and commits
    /// nothing. Otherwise it indexes every block, whatever the count: on
    /// success one commit published, for each block in order, the deletion
    /// of its id and the addition of its document; on failure nothing was
    /// committed.
    pub fn reindex_drained(&mut self, pending: u32, blocks: &Vec<Block>) -> (r: Result<(), IndexError>)
        ensures
            pending == 0 ==> r is Ok && *final(self) == *old(self),
            final(self).fields() == old(self).fields(),
            pending > 0 && r is Ok ==> final(self).committed() == old(self).committed().push(
                pass_ops(entries_of(blocks@), old(self).fields()),
            ),
            r is Err ==> final(self).committed() == old(self).committed(),
            r matches Err(e) ==> (e is Writer || e is Write),
    {
        if pending == 0 {
            return Ok(());
        }
        let entries = index_entries(blocks);
        self.re_index_content(&entries)
    }

    /// Hook run after a batch of mutations: drains the dirty counter and
    /// runs a reindex pass over `blocks` when anything was pending. Where
    /// the pass fails, the drained signals go back to the counter and the
    /// error is returned.
    pub fn on_update(&mut self, blocks: &Vec<Block>) -> (r: Result<(), IndexError>)
        ensures
            final(self).fields() == old(self).fields(),
            r is Ok ==> (final(self).committed() == old(self).committed() || final(self).committed()
                == old(self).committed().push(pass_ops(entries_of(blocks@), old(self).fields()))),
            r is Err ==> final(self).committed() == old(self).committed(),
            r matches Err(e) ==> (e is Writer || e is Write),
    {
        let pending = self.queue_reindex.drain();
        let r = self.reindex_drained(pending, blocks);
        if r.is_err() {
            self.queue_reindex.restore(pending);
        }
        r
    }

    /// Runs a query over the `title` and `body` fields against the last
    /// commit and returns at most `TOP_K` results, best first where no score
    /// is NaN. A hit whose stored fields hold no block id is skipped.
    pub fn search(&self, query: &str) -> (r: Result<SearchResults, IndexError>)
        ensures
            r matches Ok(res) ==> exists|hits: Seq<(u32, Document)>|
                hits.len() <= TOP_K && res@ == results_of(stored_hits(hits, self.fields().0))
                    && res.1 == skipped_of(stored_hits(hits, self.fields().0)) && (
                (forall|i: int| 0 <= i < hits.len() ==> !score_is_nan(#[trigger] hits[i].0))
                ==> results_descending(res@)),
            r matches Err(e) ==> (e is Reader || e is Query || e is Search),
    {
        proof {
            use_type_invariant(self);
        }
        let reader = match open_reader(&self.index) {
            Ok(rd) => rd,
            Err(e) => {
                return Err(IndexError::Reader(e));
            },
        };
        let searcher = searcher_of(&reader);
        let top = parse_and_search(&searcher, &self.query_parser, query, TOP_K)?;
        let mut resolved: Vec<(u32, Option<String>)> = Vec::new();
        let mut i: usize = 0;
        while i < top.len()
            invariant
                i <= top.len(),
                top@.len() <= TOP_K,
                hit_views(resolved@) =~= stored_hits(top@, self.block_id_field).subrange(0, i as int),
            decreases top.len() - i,
        {
            let id = first_text(&top[i].1, self.block_id_field);
            let ghost prev = resolved@;
            resolved.push((top[i].0, id));
            assert(hit_views(resolved@) =~= hit_views(prev).push(
                stored_hits(top@, self.block_id_field)[i as int],
            ));
            i = i + 1;
        }
        let res = collect_results(&resolved);
        assert(hit_views(resolved@) =~= stored_hits(top@, self.block_id_field));
        proof {
            let sh = stored_hits(top@, self.block_id_field);
            if forall|k: int| 0 <= k < top@.len() ==> !score_is_nan(#[trigger] top@[k].0) {
                assert(hits_descending(sh)) by {
                    assert forall|a: int, b: int| 0 <= a < b < sh.len() implies score_key(sh[a].0)
                        >= score_key(sh[b].0) by {
                        assert(sh[a].0 == top@[a].0 && sh[b].0 == top@[b].0);
                    }
                }
                lemma_results_keep_ranking(sh);
            }
        }
        Ok(res)
    }
}

} // verus!
