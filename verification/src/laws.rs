//! Laws of the grouping model, stated and proved once for every document:
//! what a field decodes to is a function of its own key's occurrence list
//! alone, and a key whose occurrences are single scalars yields exactly one
//! node per occurrence, in document order.

use vstd::prelude::*;
use crate::config::{ConfigItem, Group, scalar_node};
use crate::group::{NodeSource, first_seen_keys, grouped, item_sources, key_sources};

verus! {

/// The occurrences of one key within one level, in document order.
pub open spec fn occurrences_of(items: Seq<ConfigItem>, key: Seq<char>) -> Seq<ConfigItem> {
    items.filter(|it: ConfigItem| it.key@ == key)
}

/// The node sources of an occurrence list, concatenated in order.
pub open spec fn occurrence_sources(occ: Seq<ConfigItem>) -> Seq<NodeSource>
    decreases occ.len(),
{
    if occ.len() == 0 {
        Seq::empty()
    } else {
        occurrence_sources(occ.drop_last()) + item_sources(occ.last())
    }
}

/// A key's sources are exactly its own occurrences' sources: items bound to
/// other keys contribute nothing to it.
pub proof fn lemma_key_sources_are_occurrence_sources(items: Seq<ConfigItem>, key: Seq<char>)
    ensures
        key_sources(items, key) == occurrence_sources(occurrences_of(items, key)),
    decreases items.len(),
{
    reveal(Seq::filter);
    if items.len() == 0 {
        assert(key_sources(items, key) =~= occurrence_sources(occurrences_of(items, key)));
    } else {
        lemma_key_sources_are_occurrence_sources(items.drop_last(), key);
        let occ = occurrences_of(items.drop_last(), key);
        if items.last().key@ == key {
            assert(occurrences_of(items, key) == occ.push(items.last()));
            assert(occ.push(items.last()).drop_last() =~= occ);
            assert(occ.push(items.last()).last() == items.last());
        } else {
            assert(occurrences_of(items, key) == occ);
            assert(key_sources(items, key) =~= key_sources(items.drop_last(), key));
        }
    }
}

/// Law: what one key decodes to depends only on that key's own occurrence
/// list. Two documents that agree on the occurrences of `key` — however the
/// items of other keys stand around them — give `key` the same node
/// sources; and reordering the key's own occurrences reorders its sources
/// exactly as the occurrence list.
pub proof fn lemma_field_depends_only_on_its_occurrences(
    items1: Seq<ConfigItem>,
    items2: Seq<ConfigItem>,
    key: Seq<char>,
)
    requires
        occurrences_of(items1, key) == occurrences_of(items2, key),
    ensures
        key_sources(items1, key) == key_sources(items2, key),
{
    lemma_key_sources_are_occurrence_sources(items1, key);
    lemma_key_sources_are_occurrence_sources(items2, key);
}

/// Law: an item bound to some other key never disturbs a key's nodes:
/// appending it to the document leaves the key's sources untouched. Keys a
/// target type does not know therefore cannot change what any known field
/// decodes to.
pub proof fn lemma_extra_key_does_not_disturb(
    items: Seq<ConfigItem>,
    extra: ConfigItem,
    key: Seq<char>,
)
    requires
        extra.key@ != key,
    ensures
        key_sources(items.push(extra), key) == key_sources(items, key),
{
    assert(items.push(extra).drop_last() =~= items);
    assert(items.push(extra).last() == extra);
    assert(key_sources(items.push(extra), key) =~= key_sources(items, key));
}

/// Law: a document of one item carrying one scalar and no children groups to
/// exactly one entry — the item's key, bound to exactly that scalar's node.
/// Binding that field and reading the scalar therefore yields the document's
/// value itself.
pub proof fn lemma_single_key_single_scalar(items: Seq<ConfigItem>, gs: Vec<Group>)
    requires
        grouped(items, gs),
        items.len() == 1,
        items[0].values@.len() == 1,
        items[0].children@.len() == 0,
    ensures
        gs@.len() == 1,
        gs[0].key@ == items[0].key@,
        gs[0].nodes@ == seq![scalar_node(items[0].values@[0])],
{
    let empty_items = Seq::<ConfigItem>::empty();
    assert(items.drop_last() =~= empty_items);
    assert(items.last() == items[0]);
    assert(first_seen_keys(empty_items) =~= Seq::<Seq<char>>::empty());
    assert(key_sources(empty_items, items[0].key@) =~= Seq::<NodeSource>::empty());
    assert(first_seen_keys(items) =~= seq![items[0].key@]);
    assert(key_sources(items, items[0].key@) =~= item_sources(items[0]));
    assert(item_sources(items[0])[0] == NodeSource::Scalar(items[0].values@[0]));
    assert(gs[0].nodes@ =~= seq![scalar_node(items[0].values@[0])]);
}

/// Every first-seen key is some item's key.
proof fn lemma_presented_keys_occur(items: Seq<ConfigItem>, k: int)
    requires
        0 <= k < first_seen_keys(items).len(),
    ensures
        exists|i: int|
            0 <= i < items.len() && (#[trigger] items[i]).key@ == first_seen_keys(items)[k],
    decreases items.len(),
{
    if items.len() > 0 {
        let rest = first_seen_keys(items.drop_last());
        if k < rest.len() {
            lemma_presented_keys_occur(items.drop_last(), k);
            let i = choose|i: int|
                0 <= i < items.drop_last().len() && (#[trigger] items.drop_last()[i]).key@
                    == rest[k];
            assert(items[i].key@ == first_seen_keys(items)[k]);
        } else {
            assert(items[items.len() - 1].key@ == first_seen_keys(items)[k]);
        }
    }
}

/// Law: a key that never occurs in a document has no grouped entry, so the
/// field iteration — which presents exactly the scope's entries — never
/// presents it. A target field declared optional and bound to such a key is
/// left absent, not decoded from some made-up value.
pub proof fn lemma_missing_key_never_presented(
    items: Seq<ConfigItem>,
    gs: Vec<Group>,
    key: Seq<char>,
)
    requires
        grouped(items, gs),
        forall|i: int| 0 <= i < items.len() ==> (#[trigger] items[i]).key@ != key,
    ensures
        forall|k: int| 0 <= k < gs@.len() ==> (#[trigger] gs[k]).key@ != key,
{
    assert forall|k: int| 0 <= k < gs@.len() implies (#[trigger] gs[k]).key@ != key by {
        if gs[k].key@ == key {
            lemma_presented_keys_occur(items, k);
        }
    }
}

/// Every occurrence is an item of the document it was filtered from.
proof fn lemma_occurrence_membership(items: Seq<ConfigItem>, key: Seq<char>, j: int)
    requires
        0 <= j < occurrences_of(items, key).len(),
    ensures
        exists|w: int| 0 <= w < items.len() && items[w] == occurrences_of(items, key)[j],
    decreases items.len(),
{
    reveal(Seq::filter);
    let occ = occurrences_of(items, key);
    let occd = occurrences_of(items.drop_last(), key);
    if items.last().key@ == key && j == occ.len() - 1 {
        assert(items[items.len() - 1] == occ[j]);
    } else {
        assert(occ[j] == occd[j]);
        lemma_occurrence_membership(items.drop_last(), key, j);
        let w = choose|w: int|
            0 <= w < items.drop_last().len() && items.drop_last()[w] == occd[j];
        assert(items[w] == occ[j]);
    }
}

/// The sources of occurrences that each carry exactly one scalar and no
/// children: one scalar source per occurrence, in order.
proof fn lemma_single_scalar_sources(occ: Seq<ConfigItem>)
    requires
        forall|i: int|
            0 <= i < occ.len() ==> (#[trigger] occ[i]).values@.len() == 1 && occ[i].children@.len()
                == 0,
    ensures
        occurrence_sources(occ).len() == occ.len(),
        forall|j: int|
            0 <= j < occ.len() ==> #[trigger] occurrence_sources(occ)[j] == NodeSource::Scalar(
                occ[j].values@[0],
            ),
    decreases occ.len(),
{
    if occ.len() > 0 {
        lemma_single_scalar_sources(occ.drop_last());
        assert(item_sources(occ.last()) =~= seq![NodeSource::Scalar(occ.last().values@[0])]);
    }
}

/// Law: a struct field declared as a sequence receives one element per
/// occurrence of its key, in document order. Stated for a key whose
/// occurrences each carry exactly one scalar and no children: the grouped
/// entry for that key holds exactly one node per occurrence — that
/// occurrence's scalar. (A key that never occurs has no grouped entry at
/// all — see `lemma_missing_key_never_presented` — and its sequence target
/// is simply left empty.)
pub proof fn lemma_sequence_of_scalars(items: Seq<ConfigItem>, gs: Vec<Group>, k: int)
    requires
        grouped(items, gs),
        0 <= k < gs@.len(),
        forall|i: int|
            0 <= i < items.len() && (#[trigger] items[i]).key@ == gs[k].key@ ==> items[i].values@.len()
                == 1 && items[i].children@.len() == 0,
    ensures
        gs[k].nodes@.len() == occurrences_of(items, gs[k].key@).len(),
        forall|j: int|
            0 <= j < gs[k].nodes@.len() ==> #[trigger] gs[k].nodes@[j] == scalar_node(
                occurrences_of(items, gs[k].key@)[j].values@[0],
            ),
{
    let key = gs[k].key@;
    let occ = occurrences_of(items, key);
    lemma_key_sources_are_occurrence_sources(items, key);
    assert forall|j: int|
        0 <= j < occ.len() implies (#[trigger] occ[j]).values@.len() == 1 && occ[j].children@.len()
        == 0 by {
        lemma_occurrence_membership(items, key, j);
        let w = choose|w: int| 0 <= w < items.len() && items[w] == occ[j];
        assert(items[w].key@ == key);
    }
    lemma_single_scalar_sources(occ);
    assert forall|j: int|
        0 <= j < gs[k].nodes@.len() implies #[trigger] gs[k].nodes@[j] == scalar_node(
        occ[j].values@[0],
    ) by {
        assert(crate::group::source_matched(key_sources(items, key)[j], gs[k].nodes@[j]));
        assert(key_sources(items, key)[j] == NodeSource::Scalar(occ[j].values@[0]));
    }
}

} // verus!
