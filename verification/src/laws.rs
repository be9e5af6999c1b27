//! Library-wide laws: what holds of every collection across the
//! operations — deleted identifiers never reappear in queries, fresh
//! identifiers grow from one, an empty search matches everything, the
//! listing filters conjoin, and a saved document loads back unchanged.

use vstd::prelude::*;
use crate::types::ItemModel;
use crate::collection::{Collection, has_id, max_id, wf_items};
use crate::query::{list_view, search_view, keep_listed, title_matches};
use crate::codec::{ren_items, doc_items};
use crate::roundtrip::lemma_doc_roundtrip;

verus! {

proof fn lemma_filter_id_absent(s: Seq<ItemModel>, pred: spec_fn(ItemModel) -> bool, id: int)
    requires
        forall|i: int| 0 <= i < s.len() ==> (#[trigger] s[i]).id != id,
    ensures
        forall|i: int| 0 <= i < s.filter(pred).len() ==> (#[trigger] s.filter(pred)[i]).id
            != id,
    decreases s.len(),
{
    reveal(Seq::filter);
    if s.len() > 0 {
        assert(forall|i: int| 0 <= i < s.drop_last().len() ==> (#[trigger] s.drop_last()[i]).id
            != id);
        lemma_filter_id_absent(s.drop_last(), pred, id);
        let out = s.filter(pred);
        let sub = s.drop_last().filter(pred);
        assert forall|i: int| 0 <= i < out.len() implies (#[trigger] out[i]).id != id by {
            if pred(s.last()) {
                if i < out.len() - 1 {
                    assert(out[i] == sub[i]);
                } else {
                    assert(out[i] == s.last());
                    assert(s[s.len() - 1].id != id);
                }
            } else {
                assert(out[i] == sub[i]);
            }
        }
    }
}

/// After a delete, no later listing and no later search yields an item
/// carrying the deleted identifier.
pub proof fn lemma_deleted_id_absent(
    s: Seq<ItemModel>,
    id: int,
    completed: bool,
    prio: Option<Seq<char>>,
    cat: Option<Seq<char>>,
    q: Seq<char>,
)
    requires
        !has_id(s, id),
    ensures
        forall|i: int| 0 <= i < list_view(s, completed, prio, cat).len()
            ==> (#[trigger] list_view(s, completed, prio, cat)[i]).id != id,
        forall|i: int| 0 <= i < search_view(s, q).len()
            ==> (#[trigger] search_view(s, q)[i]).id != id,
{
    assert(forall|i: int| 0 <= i < s.len() ==> (#[trigger] s[i]).id != id);
    lemma_filter_id_absent(s, |it: ItemModel| keep_listed(it, completed, prio, cat), id);
    lemma_filter_id_absent(s, |it: ItemModel| title_matches(it.title, q), id);
}

proof fn lemma_max_id_initial(s: Seq<ItemModel>)
    requires
        forall|i: int| 0 <= i < s.len() ==> (#[trigger] s[i]).id == i + 1,
    ensures
        max_id(s) == s.len(),
    decreases s.len(),
{
    if s.len() > 0 {
        assert(forall|i: int| 0 <= i < s.drop_last().len() ==> (#[trigger] s.drop_last()[i]).id
            == i + 1);
        lemma_max_id_initial(s.drop_last());
        assert(s.last().id == s.len());
    }
}

/// Identifier monotonicity without deletes: when the present
/// identifiers are exactly one up to the length, the next added item
/// gets the next identifier, and the identifiers are again exactly one
/// up to the new length.
pub proof fn lemma_ids_one_to_n(
    s: Seq<ItemModel>,
    title: Seq<char>,
    priority: Option<Seq<char>>,
    due: Option<Seq<char>>,
    tags: Seq<Seq<char>>,
    now: crate::types::Timestamp,
)
    requires
        forall|i: int| 0 <= i < s.len() ==> (#[trigger] s[i]).id == i + 1,
    ensures
        Collection::added_item(s, title, priority, due, tags, now).id == s.len() + 1,
        forall|i: int| 0 <= i
            < s.push(Collection::added_item(s, title, priority, due, tags, now)).len()
            ==> (#[trigger] s.push(Collection::added_item(s, title, priority, due, tags,
                now))[i]).id == i + 1,
{
    lemma_max_id_initial(s);
}

/// A search with the empty query returns every item, in creation
/// order.
pub proof fn lemma_search_empty_query(s: Seq<ItemModel>)
    ensures
        search_view(s, Seq::<char>::empty()) == s,
    decreases s.len(),
{
    reveal(Seq::filter);
    let q = Seq::<char>::empty();
    if s.len() == 0 {
        assert(search_view(s, q) =~= s);
    } else {
        lemma_search_empty_query(s.drop_last());
        assert(title_matches(s.last().title, q));
        assert(search_view(s, q) =~= s);
    }
}

proof fn lemma_filter_in_original(s: Seq<ItemModel>, pred: spec_fn(ItemModel) -> bool)
    ensures
        forall|i: int| 0 <= i < s.filter(pred).len() ==> s.contains(#[trigger] s.filter(
            pred)[i]),
    decreases s.len(),
{
    reveal(Seq::filter);
    if s.len() > 0 {
        lemma_filter_in_original(s.drop_last(), pred);
        let out = s.filter(pred);
        let sub = s.drop_last().filter(pred);
        assert forall|i: int| 0 <= i < out.len() implies s.contains(#[trigger] out[i]) by {
            if pred(s.last()) && i == out.len() - 1 {
                assert(s[s.len() - 1] == out[i]);
            } else {
                assert(out[i] == sub[i]);
                assert(s.drop_last().contains(sub[i]));
                let j = choose|j: int| 0 <= j < s.drop_last().len() && s.drop_last()[j]
                    == sub[i];
                assert(s[j] == out[i]);
            }
        }
    }
}

/// The listing applies its two optional filters as a conjunction: an
/// item appears under both filters exactly when it appears under each
/// one alone.
pub proof fn lemma_list_filter_conjunction(
    s: Seq<ItemModel>,
    completed: bool,
    p: Seq<char>,
    c: Seq<char>,
    it: ItemModel,
)
    ensures
        list_view(s, completed, Option::Some(p), Option::Some(c)).contains(it) <==> (list_view(
            s, completed, Option::Some(p), Option::None).contains(it) && list_view(s, completed,
            Option::None, Option::Some(c)).contains(it)),
{
    let pred_both = |x: ItemModel| keep_listed(x, completed, Option::Some(p), Option::Some(c));
    let pred_p = |x: ItemModel| keep_listed(x, completed, Option::Some(p), Option::None);
    let pred_c = |x: ItemModel| keep_listed(x, completed, Option::None, Option::Some(c));
    s.filter_lemma(pred_both);
    s.filter_lemma(pred_p);
    s.filter_lemma(pred_c);
    lemma_filter_in_original(s, pred_both);
    lemma_filter_in_original(s, pred_p);
    lemma_filter_in_original(s, pred_c);
    if s.filter(pred_both).contains(it) {
        let i = choose|i: int| 0 <= i < s.filter(pred_both).len() && s.filter(pred_both)[i]
            == it;
        assert(pred_both(it));
        assert(s.contains(it));
        let j = choose|j: int| 0 <= j < s.len() && s[j] == it;
        assert(s.filter(pred_p).contains(s[j]));
        assert(s.filter(pred_c).contains(s[j]));
    }
    if s.filter(pred_p).contains(it) && s.filter(pred_c).contains(it) {
        let i = choose|i: int| 0 <= i < s.filter(pred_p).len() && s.filter(pred_p)[i] == it;
        assert(pred_p(it));
        let k = choose|k: int| 0 <= k < s.filter(pred_c).len() && s.filter(pred_c)[k] == it;
        assert(pred_c(it));
        assert(s.contains(it));
        let j = choose|j: int| 0 <= j < s.len() && s[j] == it;
        assert(pred_both(s[j]));
        assert(s.filter(pred_both).contains(s[j]));
    }
}

/// Every identifier a collection holds fits the identifier type.
pub proof fn lemma_collection_ids_bounded(c: &Collection)
    ensures
        forall|i: int| 0 <= i < c@.len() ==> (#[trigger] c@[i]).id <= u32::MAX,
{
    assert forall|i: int| 0 <= i < c@.len() implies (#[trigger] c@[i]).id <= u32::MAX by {
        assert(c@[i] == c.items@[i]@);
    }
}

/// The persistence round-trip at the store level: the document saved
/// for a well-formed collection parses back to exactly its items.
pub proof fn lemma_save_then_load(c: &Collection)
    requires
        c.wf(),
    ensures
        doc_items(ren_items(c@)) == Option::Some(c@),
{
    lemma_collection_ids_bounded(c);
    lemma_doc_roundtrip(c@);
}

} // verus!
