//! Detecting an identifier that a depth-first walk meets twice.
use vstd::prelude::*;

use crate::node::{forest_ids, id_views, lemma_forest_ids_concat, lemma_forest_ids_step, Node};

verus! {

/// A sequence whose extension has no duplicates has none itself.
proof fn lemma_prefix_no_duplicates<A>(a: Seq<A>, b: Seq<A>)
    requires
        (a + b).no_duplicates(),
    ensures
        a.no_duplicates(),
{
    assert forall|i: int, j: int| 0 <= i < a.len() && 0 <= j < a.len() && i != j implies a[i]
        != a[j] by {
        assert((a + b)[i] == a[i] && (a + b)[j] == a[j]);
    }
}

/// Whether `id` is among the identifiers already recorded in `visited`.
fn contains_id(visited: &Vec<String>, id: &String) -> (r: bool)
    ensures
        r == id_views(visited@).contains(id@),
{
    let mut j: usize = 0;
    while j < visited.len()
        invariant
            j <= visited@.len(),
            forall|k: int| 0 <= k < j ==> visited@[k]@ != id@,
        decreases visited@.len() - j,
    {
        if visited[j] == *id {
            assert(id_views(visited@)[j as int] == id@);
            return true;
        }
        j = j + 1;
    }
    assert forall|k: int| 0 <= k < id_views(visited@).len() implies id_views(visited@)[k]
        != id@ by {
        assert(id_views(visited@)[k] == visited@[k]@);
    }
    false
}

impl Node {
    /// Whether a depth-first walk of the tree meets some identifier twice.
    /// Identifiers are remembered for the whole walk, so two unrelated
    /// branches that declare the same identifier count as a repeat too.
    pub fn has_cycle(&self) -> (r: bool)
        ensures
            r == self.repeats_id(),
    {
        let mut visited: Vec<String> = Vec::new();
        assert(id_views(visited@) + self.preorder_ids() =~= self.preorder_ids());
        match self.detect_cycles(&mut visited) {
            Some(found) => found,
            None => false,
        }
    }

    /// Depth-first walk that records each identifier in `visited` and stops
    /// at the first one already recorded. `Some(true)` reports a repeat;
    /// `None` is a node without dependencies whose identifier is new.
    fn detect_cycles(&self, visited: &mut Vec<String>) -> (r: Option<bool>)
        requires
            id_views(old(visited)@).no_duplicates(),
        ensures
            r == Some(true) <==> !(id_views(old(visited)@) + self.preorder_ids()).no_duplicates(),
            r != Some(true) ==> id_views(final(visited)@) == id_views(old(visited)@)
                + self.preorder_ids(),
            r is None <==> self.deps@.len() == 0 && !id_views(old(visited)@).contains(self.id@),
        decreases self,
    {
        let ghost seen = id_views(visited@);
        if contains_id(visited, &self.id) {
            proof {
                let all = seen + self.preorder_ids();
                let k = choose|k: int| 0 <= k < seen.len() && seen[k] == self.id@;
                assert(all[k] == all[seen.len() as int]);
            }
            return Some(true);
        }
        visited.push(self.id.clone());
        assert(id_views(visited@) =~= seen + seq![self.id@]);
        assert(id_views(visited@).no_duplicates());
        if self.deps.len() == 0 {
            assert(self.preorder_ids() =~= seq![self.id@]);
            return None;
        }
        let mut i: usize = 0;
        while i < self.deps.len()
            invariant
                i <= self.deps@.len(),
                seen == id_views(old(visited)@),
                id_views(visited@) == seen + seq![self.id@] + forest_ids(self.deps@.take(i as int)),
                id_views(visited@).no_duplicates(),
            decreases self.deps@.len() - i,
        {
            let dep = &self.deps[i];
            let ghost prev = id_views(visited@);
            let found = dep.detect_cycles(visited);
            proof {
                lemma_forest_ids_step(self.deps@, i as int);
            }
            if let Some(true) = found {
                proof {
                    let rest = self.deps@.skip(i + 1);
                    lemma_forest_ids_concat(self.deps@.take(i + 1), rest);
                    assert(self.deps@.take(i + 1) + rest =~= self.deps@);
                    assert(seen + self.preorder_ids() =~= (prev + dep.preorder_ids())
                        + forest_ids(rest));
                    if (seen + self.preorder_ids()).no_duplicates() {
                        lemma_prefix_no_duplicates(prev + dep.preorder_ids(), forest_ids(rest));
                    }
                }
                return Some(true);
            }
            i = i + 1;
        }
        assert(self.deps@.take(i as int) =~= self.deps@);
        assert(seen + self.preorder_ids() =~= seen + seq![self.id@] + forest_ids(self.deps@));
        Some(false)
    }
}

} // verus!
