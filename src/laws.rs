//! Properties that hold of the two walks on every tree.
use vstd::prelude::*;
use vstd::multiset::group_multiset_axioms;
use vstd::seq_lib::{group_to_multiset_ensures, lemma_multiset_commutative};

use crate::node::{forest_ids, forest_occurrences, forest_order, forest_size, id_views, Node};

verus! {

/// Both the build order and the pre-order identifiers of a forest hold the
/// identifier `x` exactly as often as the forest's nodes carry it.
proof fn lemma_forest_counts(s: Seq<Node>, x: Seq<char>)
    ensures
        forest_ids(s).to_multiset().count(x) == forest_occurrences(s, x),
        forest_order(s).to_multiset().count(x) == forest_occurrences(s, x),
    decreases s,
{
    broadcast use group_multiset_axioms, group_to_multiset_ensures, lemma_multiset_commutative;

    if s.len() == 0 {
        assert(forest_ids(s) =~= Seq::<Seq<char>>::empty());
        assert(forest_order(s) =~= Seq::<Seq<char>>::empty());
    } else {
        let last = s.last();
        lemma_forest_counts(s.drop_last(), x);
        lemma_forest_counts(last.deps@, x);
        assert(seq![last.id@] =~= Seq::<Seq<char>>::empty().push(last.id@));
    }
}

/// The identifiers met by a walk of the tree hold `x` as often as the
/// tree's nodes carry it.
proof fn lemma_tree_count(t: Node, x: Seq<char>)
    ensures
        t.preorder_ids().to_multiset().count(x) == t.occurrences(x),
{
    broadcast use group_multiset_axioms, group_to_multiset_ensures, lemma_multiset_commutative;

    lemma_forest_counts(t.deps@, x);
    assert(seq![t.id@] =~= Seq::<Seq<char>>::empty().push(t.id@));
}

/// A tree whose nodes all carry distinct identifiers is reported without
/// a cycle.
pub proof fn lemma_distinct_ids_no_cycle(t: Node)
    requires
        forall|x: Seq<char>| #[trigger] t.occurrences(x) <= 1,
    ensures
        !t.repeats_id(),
{
    broadcast use group_multiset_axioms;

    let m = t.preorder_ids().to_multiset();
    assert forall|x: Seq<char>| m.contains(x) implies m.count(x) == 1 by {
        lemma_tree_count(t, x);
    }
    t.preorder_ids().lemma_multiset_has_no_duplicates_conv();
}

/// A tree in which two nodes carry the same identifier, wherever they
/// stand, is reported as having a cycle.
pub proof fn lemma_repeated_id_is_cycle(t: Node, x: Seq<char>)
    requires
        t.occurrences(x) >= 2,
    ensures
        t.repeats_id(),
{
    broadcast use group_multiset_axioms;

    lemma_tree_count(t, x);
    if t.preorder_ids().no_duplicates() {
        t.preorder_ids().lemma_multiset_has_no_duplicates();
    }
}

/// A node without dependencies has an empty build order and no cycle.
pub proof fn lemma_no_dependencies(t: Node)
    requires
        t.deps@.len() == 0,
    ensures
        t.build_order() == Seq::<Seq<char>>::empty(),
        !t.repeats_id(),
{
    assert(t.preorder_ids() =~= seq![t.id@]);
}

/// The build order of a node is, for each dependency in declared order,
/// that dependency's own build order followed by its identifier.
pub proof fn lemma_post_order(t: Node)
    ensures
        t.build_order() == t.deps@.map_values(|c: Node| c.build_order().push(c.id@)).flatten(),
{
    lemma_forest_post_order(t.deps@);
}

proof fn lemma_forest_post_order(s: Seq<Node>)
    ensures
        forest_order(s) == s.map_values(|c: Node| c.build_order().push(c.id@)).flatten(),
    decreases s.len(),
{
    let f = |c: Node| c.build_order().push(c.id@);
    if s.len() == 0 {
        assert(s.map_values(f) =~= Seq::<Seq<Seq<char>>>::empty());
    } else {
        lemma_forest_post_order(s.drop_last());
        assert(s.map_values(f) =~= s.drop_last().map_values(f).push(f(s.last())));
        s.drop_last().map_values(f).lemma_flatten_push(f(s.last()));
        assert(forest_order(s) =~= s.map_values(f).flatten());
    }
}

/// The node's own identifier is absent from its build order, unless a
/// node below it carries the same identifier.
pub proof fn lemma_root_not_listed(t: Node)
    requires
        t.occurrences(t.id@) == 1,
    ensures
        !t.build_order().contains(t.id@),
{
    broadcast use group_multiset_axioms, group_to_multiset_ensures;

    lemma_forest_counts(t.deps@, t.id@);
}

/// The build order lists every node below the root exactly once, so its
/// length is the number of those nodes.
pub proof fn lemma_build_order_len(t: Node)
    ensures
        t.build_order().len() == t.descendant_count(),
{
    lemma_forest_order_len(t.deps@);
}

proof fn lemma_forest_order_len(s: Seq<Node>)
    ensures
        forest_order(s).len() == forest_size(s),
    decreases s,
{
    if s.len() > 0 {
        lemma_forest_order_len(s.drop_last());
        lemma_forest_order_len(s.last().deps@);
    }
}

/// Both walks depend on the tree alone: any two results that meet their
/// contracts on the same tree are the same.
pub proof fn lemma_deterministic(
    t: Node,
    first: Seq<String>,
    second: Seq<String>,
    first_found: bool,
    second_found: bool,
)
    requires
        id_views(first) == t.build_order(),
        id_views(second) == t.build_order(),
        first_found == t.repeats_id(),
        second_found == t.repeats_id(),
    ensures
        id_views(first) == id_views(second),
        first_found == second_found,
{
}

} // verus!
