use jwst_indexing::content::{index_entries, index_entry, Block, FieldValue, IndexEntry};
use jwst_indexing::dirty::DirtyTracker;
use jwst_indexing::error::IndexError;
use jwst_indexing::plugin::{entry_document, IndexingPluginImpl};
use jwst_indexing::results::{collect_results, SearchResults};
use tantivy::schema::{
    Field, IndexRecordOption, Schema, TextFieldIndexing, TextOptions, Value, STORED, STRING,
};
use tantivy::tokenizer::{LowerCaser, NgramTokenizer, TextAnalyzer};
use tantivy::Index;

fn ram_index() -> Index {
    let mut builder = Schema::builder();
    let text = TextOptions::default().set_indexing_options(
        TextFieldIndexing::default()
            .set_tokenizer("grams")
            .set_index_option(IndexRecordOption::WithFreqsAndPositions),
    );
    builder.add_text_field("block_id", STRING | STORED);
    builder.add_text_field("title", text.clone());
    builder.add_text_field("body", text);
    let index = Index::create_in_ram(builder.build());
    index.tokenizers().register(
        "grams",
        TextAnalyzer::from(NgramTokenizer::new(1, 2, false)).filter(LowerCaser),
    );
    index
}

fn plugin() -> IndexingPluginImpl {
    IndexingPluginImpl::new(ram_index(), DirtyTracker::new()).expect("schema has the fields")
}

fn block(id: &str, title: Option<&str>, text: Option<&str>) -> Block {
    Block {
        id: id.to_string(),
        title: title.map(|t| FieldValue::Text(t.to_string())),
        text: text.map(|t| FieldValue::Text(t.to_string())),
    }
}

fn ids(results: &SearchResults) -> Vec<String> {
    let mut ids: Vec<String> = results.0.iter().map(|r| r.block_id.clone()).collect();
    ids.sort();
    ids
}

fn search_ids(p: &IndexingPluginImpl, q: &str) -> Vec<String> {
    ids(&p.search(q).expect("no error searching"))
}

fn seeded() -> (IndexingPluginImpl, Vec<Block>) {
    let mut p = plugin();
    let blocks = vec![
        block("b1", None, None),
        block("a", None, None),
        block("b", Some("Title B content"), Some("Text B content bbb xxx")),
        block("c", Some("Title C content"), Some("Text C content ccc xxx yyy")),
        block("d", Some("Title D content"), Some("Text D content ddd yyy")),
        block(
            "e",
            Some("人民日报"),
            Some("张华考上了北京大学；李萍进了中等技术学校；我在百货公司当售货员：我们都有光明的前途"),
        ),
        block(
            "f",
            Some("美国首次成功在核聚变反应中实现“净能量增益”"),
            Some("当地时间13日，美国能源部官员宣布，由美国政府资助的加州劳伦斯·利弗莫尔国家实验室（LLNL），首次成功在核聚变反应中实现“净能量增益”，即聚变反应产生的能量大于促发该反应的镭射能量。"),
        ),
    ];
    p.dirty_tracker().mark_dirty();
    p.on_update(&blocks).expect("update text search plugin");
    (p, blocks)
}

#[test]
fn basic_search_test() {
    let (p, _) = seeded();
    assert_eq!(search_ids(&p, "content"), vec!["b", "c", "d"]);
    assert_eq!(search_ids(&p, "bbb"), vec!["b"]);
    assert_eq!(search_ids(&p, "ccc"), vec!["c"]);
    assert_eq!(search_ids(&p, "xxx"), vec!["b", "c"]);
    assert_eq!(search_ids(&p, "yyy"), vec!["c", "d"]);

    assert_eq!(search_ids(&p, "人民日报"), vec!["e"]);
    assert_eq!(search_ids(&p, "技术学校"), vec!["e"]);

    assert_eq!(search_ids(&p, "核聚变反应"), vec!["f"]);
    assert_eq!(search_ids(&p, "镭射能量"), vec!["f"]);
}

#[test]
fn search_after_commit_sees_new_block() {
    let (mut p, mut blocks) = seeded();
    assert!(search_ids(&p, "qqq").is_empty());
    blocks.push(block("g", Some("fresh"), Some("qqq")));
    p.dirty_tracker().mark_dirty();
    p.on_update(&blocks).unwrap();
    assert_eq!(search_ids(&p, "qqq"), vec!["g"]);
}

#[test]
fn update_with_nothing_pending_changes_no_result() {
    let (mut p, mut blocks) = seeded();
    let before = p.search("xxx").unwrap();
    blocks.push(block("h", None, Some("xxx")));
    assert_eq!(p.dirty_tracker().pending(), 0);
    p.on_update(&blocks).unwrap();
    let after = p.search("xxx").unwrap();
    assert_eq!(before.0.len(), after.0.len());
    for (x, y) in before.0.iter().zip(after.0.iter()) {
        assert_eq!(x.block_id, y.block_id);
        assert_eq!(x.score_bits, y.score_bits);
    }
}

#[test]
fn reindex_drained_zero_is_noop() {
    let (mut p, mut blocks) = seeded();
    blocks.push(block("h", None, Some("zzz")));
    assert!(p.reindex_drained(0, &blocks).is_ok());
    assert!(search_ids(&p, "zzz").is_empty());
    assert!(p.reindex_drained(1, &blocks).is_ok());
    assert_eq!(search_ids(&p, "zzz"), vec!["h"]);
}

#[test]
fn repeated_passes_keep_one_document_per_block() {
    let (mut p, blocks) = seeded();
    p.dirty_tracker().mark_dirty();
    p.on_update(&blocks).unwrap();
    p.dirty_tracker().mark_dirty();
    p.on_update(&blocks).unwrap();
    assert_eq!(search_ids(&p, "bbb"), vec!["b"]);
    assert_eq!(search_ids(&p, "xxx"), vec!["b", "c"]);
}

#[test]
fn title_term_does_not_match_other_body() {
    let mut p = plugin();
    let blocks = vec![block("x", Some("kiwi"), None), block("y", None, Some("mango"))];
    p.dirty_tracker().mark_dirty();
    p.on_update(&blocks).unwrap();
    assert_eq!(search_ids(&p, "kiwi"), vec!["x"]);
    assert_eq!(search_ids(&p, "mango"), vec!["y"]);
}

#[test]
fn cjk_terms_are_found() {
    let mut p = plugin();
    let blocks = vec![
        block("t", Some("人民日报"), None),
        block("u", None, Some("成功在核聚变反应中实现")),
    ];
    p.dirty_tracker().mark_dirty();
    p.on_update(&blocks).unwrap();
    assert_eq!(search_ids(&p, "人民日报"), vec!["t"]);
    assert_eq!(search_ids(&p, "核聚变反应"), vec!["u"]);
}

#[test]
fn term_in_two_bodies_gives_both_in_any_order() {
    let (p, _) = seeded();
    let first = search_ids(&p, "yyy");
    let other = search_ids(&p, "bbb");
    let again = search_ids(&p, "yyy");
    assert_eq!(first, vec!["c", "d"]);
    assert_eq!(other, vec!["b"]);
    assert_eq!(again, first);
}

#[test]
fn results_are_ranked_best_first() {
    let (p, _) = seeded();
    let r = p.search("content").unwrap();
    assert!(r.0.len() <= 10);
    for w in r.0.windows(2) {
        assert!(f32::from_bits(w[0].score_bits) >= f32::from_bits(w[1].score_bits));
    }
}

#[test]
fn search_returns_at_most_ten() {
    let mut p = plugin();
    let blocks: Vec<Block> =
        (0..15).map(|i| block(&format!("n{i}"), None, Some("common word"))).collect();
    p.dirty_tracker().mark_dirty();
    p.on_update(&blocks).unwrap();
    assert_eq!(p.search("common").unwrap().0.len(), 10);
}

#[test]
fn malformed_query_is_an_error() {
    let (p, _) = seeded();
    assert!(matches!(p.search("nosuchfield:abc"), Err(IndexError::Query(_))));
}

#[test]
fn writer_failure_keeps_pending_signals() {
    let index = ram_index();
    let handle = index.clone();
    let mut p = IndexingPluginImpl::new(index, DirtyTracker::new()).unwrap();
    let blocks = vec![block("w", Some("lock"), None)];
    let held = handle.writer(15_000_000).expect("first writer");
    p.dirty_tracker().mark_dirty();
    let r = p.on_update(&blocks);
    assert!(matches!(r, Err(IndexError::Writer(_))));
    assert_eq!(p.dirty_tracker().pending(), 1);
    drop(held);
    p.on_update(&blocks).unwrap();
    assert_eq!(p.dirty_tracker().pending(), 0);
    assert_eq!(search_ids(&p, "lock"), vec!["w"]);
}

#[test]
fn missing_field_is_refused() {
    let mut builder = Schema::builder();
    builder.add_text_field("block_id", STRING | STORED);
    builder.add_text_field("title", STRING);
    let index = Index::create_in_ram(builder.build());
    assert!(IndexingPluginImpl::new(index, DirtyTracker::new()).is_none());
}

#[test]
fn unindexed_block_id_is_refused() {
    let mut builder = Schema::builder();
    builder.add_text_field("block_id", STORED);
    builder.add_text_field("title", STRING);
    builder.add_text_field("body", STRING);
    let index = Index::create_in_ram(builder.build());
    assert!(IndexingPluginImpl::new(index, DirtyTracker::new()).is_none());
}

#[test]
fn search_reports_no_skipped_hits() {
    let (p, _) = seeded();
    assert_eq!(p.search("content").unwrap().1, 0);
}

#[test]
fn dirty_tracker_drains_what_it_read() {
    let t = DirtyTracker::new();
    assert_eq!(t.drain(), 0);
    t.mark_dirty();
    t.mark_dirty();
    let shared = t.clone();
    shared.mark_dirty();
    assert_eq!(t.pending(), 3);
    assert_eq!(t.drain(), 3);
    assert_eq!(t.pending(), 0);
    t.restore(2);
    assert_eq!(shared.pending(), 2);
}

#[test]
fn entry_keeps_only_string_values() {
    let b = Block {
        id: "k".to_string(),
        title: Some(FieldValue::Other),
        text: Some(FieldValue::Text("body".to_string())),
    };
    let e = index_entry(&b);
    assert_eq!(e.block_id, "k");
    assert_eq!(e.title, None);
    assert_eq!(e.body.as_deref(), Some("body"));
    let none = index_entry(&block("m", None, None));
    assert_eq!(none.title, None);
    assert_eq!(none.body, None);
}

#[test]
fn entries_follow_blocks() {
    let blocks = vec![block("p", Some("t1"), None), block("q", None, Some("x2"))];
    let es = index_entries(&blocks);
    assert_eq!(es.len(), 2);
    assert_eq!(es[0].block_id, "p");
    assert_eq!(es[0].title.as_deref(), Some("t1"));
    assert_eq!(es[1].block_id, "q");
    assert_eq!(es[1].body.as_deref(), Some("x2"));
}

#[test]
fn entry_document_holds_its_fields() {
    let e = IndexEntry {
        block_id: "z".to_string(),
        title: None,
        body: Some("hello".to_string()),
    };
    let doc = entry_document(&e, 0, 1, 2);
    assert_eq!(doc.len(), 2);
    assert!(matches!(doc.get_first(Field::from_field_id(0)), Some(Value::Str(s)) if s == "z"));
    assert!(doc.get_first(Field::from_field_id(1)).is_none());
    assert!(matches!(doc.get_first(Field::from_field_id(2)), Some(Value::Str(s)) if s == "hello"));
}

#[test]
fn hits_without_block_id_are_skipped() {
    let hits = vec![
        (30u32, Some("a".to_string())),
        (20u32, None),
        (10u32, Some("c".to_string())),
    ];
    let r = collect_results(&hits);
    assert_eq!(r.0.len(), 2);
    assert_eq!(r.0[0].block_id, "a");
    assert_eq!(r.0[0].score_bits, 30);
    assert_eq!(r.0[1].block_id, "c");
    assert_eq!(r.0[1].score_bits, 10);
    assert_eq!(r.1, 1);
    let empty = collect_results(&Vec::new());
    assert!(empty.0.is_empty());
    assert_eq!(empty.1, 0);
}
