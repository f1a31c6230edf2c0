use vstd::prelude::*;

verus! {

/// One hit of a search: the id of the matching block and its relevance
/// score, held as the bits of the engine's `f32` score.
#[derive(Debug, Clone)]
pub struct SearchResult {
    pub block_id: String,
    pub score_bits: u32,
}

/// The hits of a search, best first as the engine ranked them, and the
/// number of hits that were skipped because their stored fields held no
/// block id.
#[derive(Debug, Clone)]
pub struct SearchResults(pub Vec<SearchResult>, pub usize);

impl View for SearchResult {
    type V = (Seq<char>, u32);

    open spec fn view(&self) -> (Seq<char>, u32) {
        (self.block_id@, self.score_bits)
    }
}

impl View for SearchResults {
    type V = Seq<(Seq<char>, u32)>;

    open spec fn view(&self) -> Seq<(Seq<char>, u32)> {
        self.0@.map_values(|r: SearchResult| r@)
    }
}

/// A ranked hit as handed over by the engine: its score bits and the block
/// id found in its stored fields, if any.
pub open spec fn hit_view(h: (u32, Option<String>)) -> (u32, Option<Seq<char>>) {
    (
        h.0,
        match h.1 {
            Some(s) => Some(s@),
            None => None,
        },
    )
}

pub open spec fn hit_views(hs: Seq<(u32, Option<String>)>) -> Seq<(u32, Option<Seq<char>>)> {
    hs.map_values(|h: (u32, Option<String>)| hit_view(h))
}

/// The results that a sequence of ranked hits yields: each hit with a block
/// id becomes a result, in order; a hit without one is skipped.
pub open spec fn results_of(hits: Seq<(u32, Option<Seq<char>>)>) -> Seq<(Seq<char>, u32)>
    decreases hits.len(),
{
    if hits.len() == 0 {
        Seq::empty()
    } else {
        let rest = results_of(hits.drop_last());
        match hits.last().1 {
            Some(id) => rest.push((id, hits.last().0)),
            None => rest,
        }
    }
}

/// Whether the bits are those of an `f32` NaN: all exponent bits set and a
/// non-zero fraction.
pub open spec fn score_is_nan(bits: u32) -> bool {
    bits % 0x8000_0000 > 0x7f80_0000
}

/// The position of a non-NaN `f32` in the order of the reals, from its bits:
/// the magnitude bits grow with the value, and the sign bit negates it (so
/// both zeros sit at 0).
pub open spec fn score_key(bits: u32) -> int {
    if bits < 0x8000_0000 {
        bits as int
    } else {
        -((bits - 0x8000_0000) as int)
    }
}

/// The number of hits without a block id.
pub open spec fn skipped_of(hits: Seq<(u32, Option<Seq<char>>)>) -> nat
    decreases hits.len(),
{
    if hits.len() == 0 {
        0
    } else {
        skipped_of(hits.drop_last()) + if hits.last().1 is None {
            1nat
        } else {
            0nat
        }
    }
}

/// Scores that never rise from one hit to the next.
pub open spec fn hits_descending(hits: Seq<(u32, Option<Seq<char>>)>) -> bool {
    forall|i: int, j: int| 0 <= i < j < hits.len() ==> score_key(hits[i].0) >= score_key(hits[j].0)
}

pub open spec fn results_descending(rs: Seq<(Seq<char>, u32)>) -> bool {
    forall|i: int, j: int| 0 <= i < j < rs.len() ==> score_key(rs[i].1) >= score_key(rs[j].1)
}

/// Every result carries the score of one of the hits, and there are no
/// more results than hits.
pub proof fn lemma_results_from_hits(hits: Seq<(u32, Option<Seq<char>>)>)
    ensures
        results_of(hits).len() <= hits.len(),
        forall|i: int|
            0 <= i < results_of(hits).len() ==> exists|k: int|
                0 <= k < hits.len() && #[trigger] results_of(hits)[i].1 == hits[k].0,
    decreases hits.len(),
{
    if hits.len() > 0 {
        let rest = hits.drop_last();
        lemma_results_from_hits(rest);
        assert forall|i: int| 0 <= i < results_of(hits).len() implies exists|k: int|
            0 <= k < hits.len() && #[trigger] results_of(hits)[i].1 == hits[k].0 by {
            if i < results_of(rest).len() {
                let k = choose|k: int| 0 <= k < rest.len() && results_of(rest)[i].1 == rest[k].0;
                assert(hits[k] == rest[k]);
            } else {
                assert(results_of(hits)[i].1 == hits[hits.len() - 1].0);
            }
        }
    }
}

/// Skipping hits keeps the ranking: results of hits in descending score
/// order are in descending score order.
pub proof fn lemma_results_keep_ranking(hits: Seq<(u32, Option<Seq<char>>)>)
    requires
        hits_descending(hits),
    ensures
        results_descending(results_of(hits)),
    decreases hits.len(),
{
    if hits.len() > 0 {
        let rest = hits.drop_last();
        assert(hits_descending(rest)) by {
            assert forall|i: int, j: int| 0 <= i < j < rest.len() implies score_key(rest[i].0) >= score_key(rest[j].0) by {
                assert(rest[i] == hits[i] && rest[j] == hits[j]);
            }
        }
        lemma_results_keep_ranking(rest);
        lemma_results_from_hits(rest);
        let rs = results_of(hits);
        let rr = results_of(rest);
        if hits.last().1 is Some {
            assert forall|i: int, j: int| 0 <= i < j < rs.len() implies score_key(rs[i].1) >= score_key(rs[j].1) by {
                if j < rr.len() {
                    assert(rs[i] == rr[i] && rs[j] == rr[j]);
                } else {
                    assert(rs[i] == rr[i]);
                    let k = choose|k: int| 0 <= k < rest.len() && #[trigger] rr[i].1 == rest[k].0;
                    assert(rest[k] == hits[k]);
                }
            }
        }
    }
}

/// Turns ranked hits into results: each hit whose stored fields held a
/// block id becomes a result with that id and the hit's score, in the order
/// of the hits; the others are skipped and counted.
pub fn collect_results(hits: &Vec<(u32, Option<String>)>) -> (r: SearchResults)
    ensures
        r@ == results_of(hit_views(hits@)),
        r.1 == skipped_of(hit_views(hits@)),
{
    let mut items: Vec<SearchResult> = Vec::new();
    let mut skipped: usize = 0;
    let mut i: usize = 0;
    while i < hits.len()
        invariant
            i <= hits.len(),
            items@.map_values(|r: SearchResult| r@) == results_of(
                hit_views(hits@).subrange(0, i as int),
            ),
            skipped as nat == skipped_of(hit_views(hits@).subrange(0, i as int)),
            skipped <= i,
        decreases hits.len() - i,
    {
        let ghost prev = items@;
        let ghost hv = hit_views(hits@);
        proof {
            assert(hv.subrange(0, i + 1).drop_last() =~= hv.subrange(0, i as int));
            assert(hv.subrange(0, i + 1).last() == hit_view(hits@[i as int]));
        }
        match &hits[i].1 {
            Some(id) => {
                items.push(SearchResult { block_id: id.clone(), score_bits: hits[i].0 });
                assert(items@.map_values(|r: SearchResult| r@) =~= prev.map_values(
                    |r: SearchResult| r@,
                ).push((id@, hits@[i as int].0)));
            },
            None => {
                skipped = skipped + 1;
            },
        }
        i = i + 1;
    }
    assert(hit_views(hits@).subrange(0, i as int) == hit_views(hits@));
    SearchResults(items, skipped)
}

} // verus!
