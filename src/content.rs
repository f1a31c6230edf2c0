use vstd::prelude::*;

verus! {

/// The value stored under a content key of a block, as far as indexing
/// reads it: a string, or anything else.
#[derive(Debug, Clone)]
pub enum FieldValue {
    Text(String),
    Other,
}

/// A block of the document: its id, and what its content holds under the
/// keys `title` and `text` (`None` where the key is absent).
#[derive(Debug, Clone)]
pub struct Block {
    pub id: String,
    pub title: Option<FieldValue>,
    pub text: Option<FieldValue>,
}

/// The projection of one block that goes into the index.
#[derive(Debug, Clone)]
pub struct IndexEntry {
    pub block_id: String,
    pub title: Option<String>,
    pub body: Option<String>,
}

/// Mathematical form of an index entry: block id, title, body.
pub struct EntryView {
    pub block_id: Seq<char>,
    pub title: Option<Seq<char>>,
    pub body: Option<Seq<char>>,
}

impl View for IndexEntry {
    type V = EntryView;

    open spec fn view(&self) -> EntryView {
        EntryView {
            block_id: self.block_id@,
            title: match self.title {
                Some(t) => Some(t@),
                None => None,
            },
            body: match self.body {
                Some(b) => Some(b@),
                None => None,
            },
        }
    }
}

/// The text a content value contributes: a string value is kept, an absent
/// key or a value of any other type contributes nothing.
pub open spec fn text_of(v: Option<FieldValue>) -> Option<Seq<char>> {
    match v {
        Some(FieldValue::Text(s)) => Some(s@),
        _ => None,
    }
}

/// The index entry of a block.
pub open spec fn entry_of(b: Block) -> EntryView {
    EntryView { block_id: b.id@, title: text_of(b.title), body: text_of(b.text) }
}

/// The index entries of a sequence of blocks, one per block, in order.
pub open spec fn entries_of(blocks: Seq<Block>) -> Seq<EntryView> {
    blocks.map_values(|b: Block| entry_of(b))
}

/// Views of a sequence of index entries.
pub open spec fn entry_views(es: Seq<IndexEntry>) -> Seq<EntryView> {
    es.map_values(|e: IndexEntry| e@)
}

/// The string held by a content value, if it is a string.
pub fn extract_text(v: &Option<FieldValue>) -> (r: Option<String>)
    ensures
        match r {
            Some(s) => text_of(*v) == Some(s@),
            None => text_of(*v) is None,
        },
{
    match v {
        Some(FieldValue::Text(s)) => Some(s.clone()),
        _ => None,
    }
}

/// Projects a block onto its index entry.
pub fn index_entry(block: &Block) -> (r: IndexEntry)
    ensures
        r@ == entry_of(*block),
{
    let title = extract_text(&block.title);
    let body = extract_text(&block.text);
    IndexEntry { block_id: block.id.clone(), title, body }
}

/// Projects every block onto its index entry, one entry per block, in the
/// order of the blocks.
pub fn index_entries(blocks: &Vec<Block>) -> (r: Vec<IndexEntry>)
    ensures
        entry_views(r@) == entries_of(blocks@),
{
    let mut out: Vec<IndexEntry> = Vec::new();
    let mut i: usize = 0;
    while i < blocks.len()
        invariant
            i <= blocks.len(),
            entry_views(out@) == entries_of(blocks@.subrange(0, i as int)),
        decreases blocks.len() - i,
    {
        let e = index_entry(&blocks[i]);
        let ghost prev = out@;
        out.push(e);
        proof {
            assert(out@ == prev.push(e));
            assert(entry_views(out@) =~= entry_views(prev).push(e@));
            assert(blocks@.subrange(0, i + 1) =~= blocks@.subrange(0, i as int).push(blocks@[i as int]));
            assert(entries_of(blocks@.subrange(0, i + 1)) =~= entries_of(
                blocks@.subrange(0, i as int),
            ).push(entry_of(blocks@[i as int])));
        }
        i = i + 1;
    }
    assert(blocks@.subrange(0, i as int) == blocks@);
    out
}

} // verus!
