//! Which node stands for which query.

use dashmap::DashMap;
use vstd::prelude::*;

use crate::base::name_table::{self, table_get, table_insert, table_new};

verus! {

/// The nodes of the queries of one kind, by the texts of the queries.
pub struct QueryRegistry {
    nodes: DashMap<String, u64>,
    next_node: u64,
}

impl QueryRegistry {
    /// The node of each query that was asked for.
    pub closed spec fn nodes(self) -> Map<Seq<char>, u64> {
        name_table::numbers_in(self.nodes)
    }

    /// How many nodes were made.
    pub closed spec fn made(self) -> u64 {
        self.next_node
    }

    /// No two queries share a node, and every node was made.
    pub open spec fn wf(self) -> bool {
        &&& forall|query: Seq<char>| #[trigger] self.nodes().contains_key(query) ==> self.nodes()[query] < self.made()
        &&& forall|a: Seq<char>, b: Seq<char>|
            #[trigger] self.nodes().contains_key(a) && #[trigger] self.nodes().contains_key(b) && a != b
                ==> self.nodes()[a] != self.nodes()[b]
    }

    pub fn new() -> (r: QueryRegistry)
        ensures
            r.wf(),
            r.made() == 0,
            forall|query: Seq<char>| !r.nodes().contains_key(query),
    {
        QueryRegistry { nodes: table_new(), next_node: 0 }
    }

    /// Whether one more node can be made.
    pub fn has_room(&self) -> (r: bool)
        ensures
            r == (self.made() < u64::MAX),
    {
        self.next_node < u64::MAX
    }

    /// The node of a query, which is made where nobody asked for the query before. Says whether it was.
    pub fn get_or_create(&mut self, query: &str) -> (r: (u64, bool))
        requires
            old(self).wf(),
            old(self).made() < u64::MAX,
        ensures
            final(self).wf(),
            r == if old(self).nodes().contains_key(query@) {
                (old(self).nodes()[query@], false)
            } else {
                (old(self).made(), true)
            },
            final(self).nodes() == old(self).nodes().insert(query@, r.0),
            final(self).made() == old(self).made() + if r.1 {
                1int
            } else {
                0
            },
    {
        match table_get(&self.nodes, query) {
            Some(node) => {
                assert(self.nodes() =~= self.nodes().insert(query@, node));
                (node, false)
            },
            None => {
                let node: u64 = self.next_node;
                table_insert(&mut self.nodes, query.to_owned(), node);
                self.next_node = node + 1;
                proof {
                    let before = old(self).nodes();
                    assert forall|other: Seq<char>| #[trigger] self.nodes().contains_key(other) && other
                        != query@ implies before.contains_key(other) && self.nodes()[other] == before[other] by {}
                }
                (node, true)
            },
        }
    }
}

} // verus!
