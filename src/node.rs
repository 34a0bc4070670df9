//! The dependency tree and its mathematical model.
use vstd::prelude::*;

verus! {

/// A named dependency together with the dependencies it needs, in
/// declared order. Each child is owned by its parent alone.
#[derive(Debug)]
pub struct Node {
    pub id: String,
    pub deps: Vec<Node>,
}

/// The identifiers of a sequence of strings, as character sequences.
pub open spec fn id_views(v: Seq<String>) -> Seq<Seq<char>> {
    v.map_values(|s: String| s@)
}

/// Build order of a forest: for each tree, in order, the build order of
/// its own dependencies followed by its identifier.
pub open spec fn forest_order(s: Seq<Node>) -> Seq<Seq<char>>
    decreases s,
{
    if s.len() == 0 {
        Seq::empty()
    } else {
        let last = s.last();
        forest_order(s.drop_last()) + forest_order(last.deps@) + seq![last.id@]
    }
}

/// Identifiers of a forest in depth-first pre-order: for each tree, in
/// order, its identifier followed by those of its dependencies.
pub open spec fn forest_ids(s: Seq<Node>) -> Seq<Seq<char>>
    decreases s,
{
    if s.len() == 0 {
        Seq::empty()
    } else {
        let last = s.last();
        forest_ids(s.drop_last()) + seq![last.id@] + forest_ids(last.deps@)
    }
}

/// How many nodes of a forest carry the identifier `x`.
pub open spec fn forest_occurrences(s: Seq<Node>, x: Seq<char>) -> nat
    decreases s,
{
    if s.len() == 0 {
        0
    } else {
        let last = s.last();
        forest_occurrences(s.drop_last(), x) + (if last.id@ == x {
            1nat
        } else {
            0nat
        }) + forest_occurrences(last.deps@, x)
    }
}

/// How many nodes a forest holds, at every depth.
pub open spec fn forest_size(s: Seq<Node>) -> nat
    decreases s,
{
    if s.len() == 0 {
        0
    } else {
        let last = s.last();
        forest_size(s.drop_last()) + 1 + forest_size(last.deps@)
    }
}

impl Node {
    /// How many nodes of this tree, this one included, carry the identifier `x`.
    pub open spec fn occurrences(self, x: Seq<char>) -> nat {
        (if self.id@ == x {
            1nat
        } else {
            0nat
        }) + forest_occurrences(self.deps@, x)
    }

    /// How many nodes lie below this one.
    pub open spec fn descendant_count(self) -> nat {
        forest_size(self.deps@)
    }

    /// The order in which the dependencies of this node are built: every
    /// descendant, each one after all of its own dependencies.
    pub open spec fn build_order(self) -> Seq<Seq<char>> {
        forest_order(self.deps@)
    }

    /// Every identifier of the tree, this node's first, in the order a
    /// depth-first walk meets them.
    pub open spec fn preorder_ids(self) -> Seq<Seq<char>> {
        seq![self.id@] + forest_ids(self.deps@)
    }

    /// Whether some identifier is met twice by a depth-first walk.
    pub open spec fn repeats_id(self) -> bool {
        !self.preorder_ids().no_duplicates()
    }
}

} // verus!

verus! {

/// The pre-order identifiers of two forests side by side are those of the
/// first followed by those of the second.
pub proof fn lemma_forest_ids_concat(a: Seq<Node>, b: Seq<Node>)
    ensures
        forest_ids(a + b) == forest_ids(a) + forest_ids(b),
    decreases b.len(),
{
    if b.len() == 0 {
        assert(a + b =~= a);
        assert(forest_ids(a) + forest_ids(b) =~= forest_ids(a));
    } else {
        lemma_forest_ids_concat(a, b.drop_last());
        assert((a + b).drop_last() =~= a + b.drop_last());
        assert((a + b).last() == b.last());
        assert(forest_ids(a + b) =~= forest_ids(a) + forest_ids(b));
    }
}

/// Taking one more tree of a forest adds that tree's pre-order identifiers.
pub proof fn lemma_forest_ids_step(s: Seq<Node>, i: int)
    requires
        0 <= i < s.len(),
    ensures
        forest_ids(s.take(i + 1)) == forest_ids(s.take(i)) + s[i].preorder_ids(),
{
    assert(s.take(i + 1).drop_last() =~= s.take(i));
    assert(forest_ids(s.take(i + 1)) =~= forest_ids(s.take(i)) + s[i].preorder_ids());
}

} // verus!
