//! Scope grouping: turning the flat, ordered item list of one document level
//! into its per-key view. Keys keep their first-seen order; the occurrences
//! of one key keep their document order and are never merged.

use vstd::prelude::*;
use std::rc::Rc;
use crate::config::{ConfigItem, ConfigValue, Group, Node, scalar_node};

verus! {

/// What one grouped node is made from: either one scalar value of some
/// occurrence, or the whole child list of one occurrence.
pub enum NodeSource {
    Scalar(ConfigValue),
    Block(Vec<ConfigItem>),
}

/// The node sources contributed by a single item: each of its scalar values
/// in order, then one block for its children if it has any.
pub open spec fn item_sources(it: ConfigItem) -> Seq<NodeSource> {
    Seq::new(it.values@.len(), |j: int| NodeSource::Scalar(it.values@[j])) + if it.children@.len()
        > 0 {
        seq![NodeSource::Block(it.children)]
    } else {
        Seq::<NodeSource>::empty()
    }
}

/// The distinct keys of an item list, in the order each key is first seen.
pub open spec fn first_seen_keys(items: Seq<ConfigItem>) -> Seq<Seq<char>>
    decreases items.len(),
{
    if items.len() == 0 {
        Seq::empty()
    } else {
        let rest = first_seen_keys(items.drop_last());
        if rest.contains(items.last().key@) {
            rest
        } else {
            rest.push(items.last().key@)
        }
    }
}

/// All node sources contributed to one key over an item list, in document
/// order.
pub open spec fn key_sources(items: Seq<ConfigItem>, key: Seq<char>) -> Seq<NodeSource>
    decreases items.len(),
{
    if items.len() == 0 {
        Seq::empty()
    } else {
        key_sources(items.drop_last(), key) + if items.last().key@ == key {
            item_sources(items.last())
        } else {
            Seq::<NodeSource>::empty()
        }
    }
}

/// `gs` is exactly the grouping of `items`: one group per distinct key in
/// first-seen order, each holding that key's nodes in document order, with
/// nested child lists grouped the same way.
pub open spec fn grouped(items: Seq<ConfigItem>, gs: Vec<Group>) -> bool
    decreases gs,
{
    &&& gs@.len() == first_seen_keys(items).len()
    &&& forall|k: int|
        0 <= k < gs@.len() ==> (#[trigger] gs[k]).key@ == first_seen_keys(items)[k]
    &&& forall|k: int|
        0 <= k < gs@.len() ==> (#[trigger] gs[k]).nodes@.len() == key_sources(
            items,
            gs[k].key@,
        ).len()
    &&& forall|k: int, j: int|
        0 <= k < gs@.len() && 0 <= j < gs[k].nodes@.len() ==> source_matched(
            key_sources(items, gs[k].key@)[j],
            #[trigger] gs[k].nodes@[j],
        )
}

/// `nd` is exactly the node that source `src` turns into: the scalar itself,
/// or the grouped form of the block's items.
pub open spec fn source_matched(src: NodeSource, nd: Node) -> bool
    decreases nd,
{
    match src {
        NodeSource::Scalar(v) => nd == scalar_node(v),
        NodeSource::Block(ch) => match nd {
            Node::Object(gs) => grouped(ch@, *gs),
            _ => false,
        },
    }
}

/// Extending an item list by one item extends the first-seen keys and each
/// key's sources in the expected way.
proof fn lemma_grouping_step(items: Seq<ConfigItem>, i: int)
    requires
        0 <= i < items.len(),
    ensures
        first_seen_keys(items.take(i + 1)) == if first_seen_keys(items.take(i)).contains(
            items[i].key@,
        ) {
            first_seen_keys(items.take(i))
        } else {
            first_seen_keys(items.take(i)).push(items[i].key@)
        },
        forall|k: Seq<char>| #[trigger]
            key_sources(items.take(i + 1), k) == key_sources(items.take(i), k) + if items[i].key@
                == k {
                item_sources(items[i])
            } else {
                Seq::<NodeSource>::empty()
            },
{
    assert(items.take(i + 1).drop_last() =~= items.take(i));
    assert(items.take(i + 1).last() == items[i]);
}

/// The first-seen key list never holds a key twice.
proof fn lemma_first_seen_keys_distinct(items: Seq<ConfigItem>)
    ensures
        forall|k1: int, k2: int|
            0 <= k1 < k2 < first_seen_keys(items).len() ==> #[trigger] first_seen_keys(items)[k1]
                != #[trigger] first_seen_keys(items)[k2],
    decreases items.len(),
{
    if items.len() > 0 {
        lemma_first_seen_keys_distinct(items.drop_last());
        let rest = first_seen_keys(items.drop_last());
        let key = items.last().key@;
        if !rest.contains(key) {
            assert forall|k1: int| 0 <= k1 < rest.len() implies rest[k1] != key by {
                if rest[k1] == key {
                    assert(rest.contains(key));
                }
            }
        }
    }
}

/// A key that is not among the first-seen keys has no sources at all.
proof fn lemma_unseen_key_has_no_sources(items: Seq<ConfigItem>, key: Seq<char>)
    requires
        !first_seen_keys(items).contains(key),
    ensures
        key_sources(items, key) == Seq::<NodeSource>::empty(),
    decreases items.len(),
{
    if items.len() > 0 {
        assert(first_seen_keys(items.drop_last()).contains(key)
            ==> first_seen_keys(items).contains(key)) by {
            let rest = first_seen_keys(items.drop_last());
            if rest.contains(key) {
                let w = choose|w: int| 0 <= w < rest.len() && rest[w] == key;
                assert(first_seen_keys(items)[w] == key);
            }
        }
        lemma_unseen_key_has_no_sources(items.drop_last(), key);
        assert(items.last().key@ != key) by {
            let fsk = first_seen_keys(items);
            if items.last().key@ == key {
                assert(fsk.last() == key || first_seen_keys(items.drop_last()).contains(key));
                assert(fsk.contains(key)) by {
                    if fsk.last() == key {
                        assert(fsk[fsk.len() - 1] == key);
                    }
                }
            }
        }
        assert(key_sources(items, key) =~= Seq::<NodeSource>::empty());
    }
}

/// Groups an ordered item list into its per-key view: one entry per distinct
/// key in first-seen order, holding, in document order, one scalar node per
/// value and one already grouped object node per occurrence that has
/// children. Two items with the same key contribute in document order and
/// are never merged.
pub fn from_config(items: &Vec<ConfigItem>) -> (r: Vec<Group>)
    ensures
        grouped(items@, r),
    decreases *items,
{
    let mut keys: Vec<String> = Vec::new();
    let mut lists: Vec<Vec<Node>> = Vec::new();
    let mut i: usize = 0;
    proof {
        assert(items@.take(0int) =~= Seq::<ConfigItem>::empty());
    }
    while i < items.len()
        invariant
            i <= items@.len(),
            keys@.len() == lists@.len(),
            keys@.len() == first_seen_keys(items@.take(i as int)).len(),
            forall|k: int|
                0 <= k < keys@.len() ==> (#[trigger] keys@[k])@ == first_seen_keys(
                    items@.take(i as int),
                )[k],
            forall|k: int|
                0 <= k < lists@.len() ==> (#[trigger] lists@[k])@.len() == key_sources(
                    items@.take(i as int),
                    keys@[k]@,
                ).len(),
            forall|k: int, j: int|
                0 <= k < lists@.len() && 0 <= j < lists@[k]@.len() ==> source_matched(
                    key_sources(items@.take(i as int), keys@[k]@)[j],
                    #[trigger] lists@[k]@[j],
                ),
        decreases items@.len() - i,
    {
        let ghost pre = items@.take(i as int);
        let ghost post = items@.take(i as int + 1);
        proof {
            lemma_grouping_step(items@, i as int);
            lemma_first_seen_keys_distinct(pre);
        }
        let it = &items[i];
        let mut idx: usize = 0;
        let mut found: bool = false;
        while idx < keys.len() && !found
            invariant
                idx <= keys@.len(),
                !found ==> forall|k: int| 0 <= k < idx ==> (#[trigger] keys@[k])@ != it.key@,
                found ==> idx < keys@.len() && keys@[idx as int]@ == it.key@,
            decreases keys@.len() - idx + (if found {
                0int
            } else {
                1int
            }),
        {
            if keys[idx] == it.key {
                found = true;
            } else {
                idx = idx + 1;
            }
        }
        if !found {
            proof {
                assert forall|k: int|
                    0 <= k < first_seen_keys(pre).len() implies #[trigger] first_seen_keys(pre)[k]
                    != it.key@ by {
                    assert(keys@[k]@ == first_seen_keys(pre)[k]);
                }
                if first_seen_keys(pre).contains(it.key@) {
                    let w = choose|w: int|
                        0 <= w < first_seen_keys(pre).len() && first_seen_keys(pre)[w] == it.key@;
                    assert(false);
                }
                lemma_unseen_key_has_no_sources(pre, it.key@);
            }
            keys.push(it.key.clone());
            lists.push(Vec::new());
            idx = keys.len() - 1;
        } else {
            proof {
                assert(first_seen_keys(pre).contains(it.key@)) by {
                    assert(first_seen_keys(pre)[idx as int] == it.key@);
                }
            }
        }
        proof {
            // after a possible push, the keys line up with the stepped key list
            assert(keys@.len() == first_seen_keys(post).len());
            assert forall|k: int|
                0 <= k < keys@.len() implies (#[trigger] keys@[k])@ == first_seen_keys(post)[k] by {
                assert(k < first_seen_keys(pre).len() ==> keys@[k]@ == first_seen_keys(pre)[k]);
            }
            assert(keys@[idx as int]@ == it.key@);
            // distinct keys: only the entry at idx is bound to this item's key
            assert forall|k: int|
                0 <= k < keys@.len() && k != idx implies (#[trigger] keys@[k])@ != it.key@ by {
                lemma_first_seen_keys_distinct(post);
                assert(first_seen_keys(post)[k] != first_seen_keys(post)[idx as int]);
            }
        }
        let ghost lists_before = lists@;
        let mut l: Vec<Node> = lists.remove(idx);
        let ghost base = l@;
        let mut j: usize = 0;
        while j < it.values.len()
            invariant
                j <= it.values@.len(),
                l@.len() == base.len() + j,
                forall|p: int| 0 <= p < base.len() ==> #[trigger] l@[p] == base[p],
                forall|q: int|
                    0 <= q < j ==> #[trigger] l@[base.len() + q] == scalar_node(it.values@[q]),
            decreases it.values@.len() - j,
        {
            let nd = match &it.values[j] {
                ConfigValue::Str(s) => Node::Str(s.clone()),
                ConfigValue::Number(n) => Node::Number(*n),
                ConfigValue::Boolean(b) => Node::Boolean(*b),
            };
            l.push(nd);
            j = j + 1;
        }
        if it.children.len() > 0 {
            proof {
                assert(decreases_to!(*items => items@[i as int].children));
            }
            let sub = from_config(&it.children);
            let obj = Rc::new(sub);
            proof {
                assert(grouped(it.children@, *obj));
                assert(source_matched(NodeSource::Block(it.children), Node::Object(obj)));
            }
            l.push(Node::Object(obj));
        }
        proof {
            // the appended tail matches this item's sources, one by one
            assert(*it == items@[i as int]);
            let srcs = item_sources(items@[i as int]);
            assert(l@.len() == base.len() + srcs.len());
            assert forall|q: int| 0 <= q < srcs.len() implies source_matched(
                srcs[q],
                #[trigger] l@[base.len() + q],
            ) by {
                if q < it.values@.len() {
                    assert(srcs[q] == NodeSource::Scalar(it.values@[q]));
                    assert(l@[base.len() + q] == scalar_node(it.values@[q]));
                } else {
                    assert(srcs[q] == NodeSource::Block(it.children));
                }
            }
        }
        let ghost l_new = l@;
        lists.insert(idx, l);
        i = i + 1;
        proof {
            let ks = keys@;
            let ls = lists@;
            assert(ls =~= lists_before.update(idx as int, ls[idx as int]));
            assert(ls[idx as int]@ == l_new);
            // per-key sources after this item
            assert forall|k: int|
                0 <= k < ks.len() && k != idx implies key_sources(post, (#[trigger] ks[k])@)
                == key_sources(pre, ks[k]@) by {
                assert(ks[k]@ != it.key@);
                assert(key_sources(post, ks[k]@) == key_sources(pre, ks[k]@) + Seq::<
                    NodeSource,
                >::empty());
                assert(key_sources(pre, ks[k]@) + Seq::<NodeSource>::empty() =~= key_sources(
                    pre,
                    ks[k]@,
                ));
            }
            assert(key_sources(post, it.key@) == key_sources(pre, it.key@) + item_sources(
                items@[i as int - 1],
            ));
            // lengths line up for every entry
            assert forall|k: int| 0 <= k < ls.len() implies (#[trigger] ls[k])@.len()
                == key_sources(post, ks[k]@).len() by {
                if k != idx {
                    assert(ls[k] == lists_before[k]);
                } else {
                    assert(base.len() == key_sources(pre, it.key@).len());
                }
            }
            // and so do the entries themselves
            assert forall|k: int, j: int|
                0 <= k < ls.len() && 0 <= j < ls[k]@.len() implies source_matched(
                key_sources(post, ks[k]@)[j],
                #[trigger] ls[k]@[j],
            ) by {
                if k != idx {
                    assert(ls[k] == lists_before[k]);
                    assert(source_matched(key_sources(pre, ks[k]@)[j], lists_before[k]@[j]));
                } else {
                    let srcs = item_sources(items@[i as int - 1]);
                    if j < base.len() {
                        assert(ls[k]@[j] == base[j]);
                        assert(key_sources(post, it.key@)[j] == key_sources(pre, it.key@)[j]);
                        assert(source_matched(key_sources(pre, it.key@)[j], base[j]));
                    } else {
                        let q = j - base.len();
                        assert(ls[k]@[j] == l_new[base.len() + q]);
                        assert(key_sources(post, it.key@)[j] == srcs[q]);
                        assert(source_matched(srcs[q], l_new[base.len() + q]));
                    }
                }
            }
        }
    }
    proof {
        assert(items@.take(items@.len() as int) =~= items@);
    }
    let mut r: Vec<Group> = Vec::new();
    let ghost keys_final = keys@;
    let ghost lists_final = lists@;
    proof {
        assert(keys@ =~= keys_final.subrange(0, keys_final.len() as int));
        assert(lists@ =~= lists_final.subrange(0, lists_final.len() as int));
    }
    while keys.len() > 0
        invariant
            keys@.len() == lists@.len(),
            r@.len() + keys@.len() == keys_final.len(),
            keys_final.len() == lists_final.len(),
            keys@ == keys_final.subrange(r@.len() as int, keys_final.len() as int),
            lists@ == lists_final.subrange(r@.len() as int, lists_final.len() as int),
            forall|k: int|
                0 <= k < r@.len() ==> (#[trigger] r@[k]).key == keys_final[k] && r@[k].nodes@
                    == lists_final[k]@,
        decreases keys@.len(),
    {
        let ghost done = r@.len() as int;
        let key = keys.remove(0);
        let list = lists.remove(0);
        proof {
            assert(key == keys_final[done]);
            assert(list == lists_final[done]);
            assert(keys@ =~= keys_final.subrange(done + 1, keys_final.len() as int));
            assert(lists@ =~= lists_final.subrange(done + 1, lists_final.len() as int));
        }
        r.push(Group { key, nodes: Rc::new(list) });
    }
    proof {
        let fsk = first_seen_keys(items@);
        assert(r@.len() == fsk.len());
        assert forall|k: int| 0 <= k < r@.len() implies (#[trigger] r[k]).key@ == fsk[k] by {
            assert(r@[k].key == keys_final[k]);
            assert(keys_final[k]@ == fsk[k]);
        }
        assert forall|k: int| 0 <= k < r@.len() implies (#[trigger] r[k]).nodes@.len()
            == key_sources(items@, r[k].key@).len() by {
            assert(r@[k].nodes@ == lists_final[k]@);
            assert(lists_final[k]@.len() == key_sources(items@, keys_final[k]@).len());
        }
        assert forall|k: int, j: int|
            0 <= k < r@.len() && 0 <= j < r[k].nodes@.len() implies source_matched(
            key_sources(items@, r[k].key@)[j],
            #[trigger] r[k].nodes@[j],
        ) by {
            assert(r@[k].nodes@ == lists_final[k]@);
            assert(source_matched(key_sources(items@, keys_final[k]@)[j], lists_final[k]@[j]));
        }
    }
    r
}

} // verus!
