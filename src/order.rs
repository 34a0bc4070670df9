//! Flattening a dependency tree into a build order.
use vstd::prelude::*;

use crate::node::{forest_order, id_views, Node};

verus! {

impl Node {
    /// The identifiers of every dependency of this node, each one placed
    /// after all of its own dependencies. The node's own identifier is not
    /// part of the list; a node without dependencies gives an empty list.
    pub fn get_dependancy_list(&self) -> (r: Vec<String>)
        ensures
            id_views(r@) == self.build_order(),
    {
        match self.walk() {
            Some(list) => list,
            None => Vec::new(),
        }
    }

    /// Depth-first post-order walk below this node: `None` for a node
    /// without dependencies, else the build order of its dependencies.
    fn walk(&self) -> (r: Option<Vec<String>>)
        ensures
            r is None <==> self.deps@.len() == 0,
            r matches Some(v) ==> id_views(v@) == self.build_order(),
        decreases self,
    {
        if self.deps.len() == 0 {
            return None;
        }
        let mut stack: Vec<String> = Vec::new();
        let mut i: usize = 0;
        while i < self.deps.len()
            invariant
                i <= self.deps@.len(),
                id_views(stack@) == forest_order(self.deps@.take(i as int)),
            decreases self.deps@.len() - i,
        {
            let dep = &self.deps[i];
            let ghost before = stack@;
            if let Some(mut sub) = dep.walk() {
                let ghost tail = sub@;
                stack.append(&mut sub);
                assert(id_views(stack@) =~= id_views(before) + id_views(tail));
            }
            assert(id_views(stack@) == id_views(before) + forest_order(dep.deps@));
            let ghost middle = stack@;
            stack.push(dep.id.clone());
            assert(id_views(stack@) =~= id_views(middle) + seq![dep.id@]);
            assert(self.deps@.take(i + 1).drop_last() =~= self.deps@.take(i as int));
            i = i + 1;
        }
        assert(self.deps@.take(i as int) =~= self.deps@);
        Some(stack)
    }
}

} // verus!
