//! Which results used a result, and how they become out of date with it.

use vstd::prelude::*;

verus! {

/// The nodes whose results used that of a node, each once.
pub struct BackReferences {
    nodes: Vec<u64>,
}

impl View for BackReferences {
    type V = Seq<u64>;

    closed spec fn view(&self) -> Seq<u64> {
        self.nodes@
    }
}

impl BackReferences {
    pub open spec fn wf(self) -> bool {
        self@.no_duplicates()
    }

    pub fn new() -> (r: BackReferences)
        ensures
            r.wf(),
            r@ == Seq::<u64>::empty(),
    {
        BackReferences { nodes: Vec::new() }
    }

    /// Notes that the result of a node used this one. One that is noted already stays in its place.
    pub fn insert(&mut self, node: u64)
        requires
            old(self).wf(),
        ensures
            final(self).wf(),
            final(self)@ == if old(self)@.contains(node) {
                old(self)@
            } else {
                old(self)@.push(node)
            },
    {
        let mut i: usize = 0;
        while i < self.nodes.len()
            invariant
                i <= self.nodes@.len(),
                self.nodes@ == old(self)@,
                old(self).wf(),
                forall|k: int| 0 <= k < i ==> self.nodes@[k] != node,
            decreases self.nodes@.len() - i,
        {
            if self.nodes[i] == node {
                return ;
            }
            i = i + 1;
        }
        self.nodes.push(node);
    }
}

/// A node that a marking came to, and the nodes that it passes the mark on to.
pub struct Mark {
    pub node: u64,
    pub passed_on: Seq<u64>,
}

/// The nodes that are still to be marked, the next one last, after marks on a node and on what the
/// mark was passed on to. `None` where the marks are not those that were due.
pub open spec fn pending_after(node: u64, marks: Seq<Mark>) -> Option<Seq<u64>>
    decreases marks.len(),
{
    if marks.len() == 0 {
        Some(seq![node])
    } else {
        match pending_after(node, marks.drop_last()) {
            Some(pending) => if pending.len() > 0 && pending.last() == marks.last().node {
                Some(pending.drop_last() + marks.last().passed_on.reverse())
            } else {
                None
            },
            None => None,
        }
    }
}

/// Marking results as out of date: that of a node, those that used it, and so on.
pub struct DirtyMarking {
    pending: Vec<u64>,
}

impl DirtyMarking {
    /// The nodes that are still to be marked, the next one last.
    pub closed spec fn pending(self) -> Seq<u64> {
        self.pending@
    }

    /// Starts with a node.
    pub fn new(node: u64) -> (r: DirtyMarking)
        ensures
            r.pending() == seq![node],
    {
        let mut pending: Vec<u64> = Vec::new();
        pending.push(node);
        DirtyMarking { pending }
    }

    /// The next node to mark.
    pub fn next_node(&mut self) -> (r: Option<u64>)
        ensures
            if old(self).pending().len() > 0 {
                r == Some(old(self).pending().last()) && final(self).pending() == old(self).pending().drop_last()
            } else {
                r is None && final(self).pending() == old(self).pending()
            },
    {
        self.pending.pop()
    }

    /// Goes on behind a node that was marked, with the nodes whose results used its result: the first
    /// of them, and what follows from it, comes before the others.
    pub fn pass_on(&mut self, back_references: &BackReferences)
        ensures
            final(self).pending() == old(self).pending() + back_references@.reverse(),
    {
        let mut i: usize = back_references.nodes.len();
        while i > 0
            invariant
                i <= back_references.nodes@.len(),
                self.pending@ == old(self).pending() + back_references.nodes@.skip(i as int).reverse(),
            decreases i,
        {
            i = i - 1;
            self.pending.push(back_references.nodes[i]);
            assert(back_references.nodes@.skip(i as int).reverse() =~= back_references.nodes@.skip(
                i + 1,
            ).reverse().push(back_references.nodes@[i as int]));
        }
        assert(back_references.nodes@.skip(0) =~= back_references.nodes@);
    }
}

/// A node that is pending is marked before the marking ends.
proof fn lemma_pending_is_marked(node: u64, marks: Seq<Mark>, k: int, other: u64)
    requires
        pending_after(node, marks) == Some(Seq::<u64>::empty()),
        0 <= k <= marks.len(),
        pending_after(node, marks.take(k)) matches Some(pending) && pending.contains(other),
    ensures
        exists|j: int| k <= j < marks.len() && (#[trigger] marks[j]).node == other,
    decreases marks.len() - k,
{
    let pending = pending_after(node, marks.take(k))->0;
    if k == marks.len() {
        assert(marks.take(k) =~= marks);
    } else {
        lemma_due(node, marks, k + 1);
        assert(marks.take(k + 1).drop_last() =~= marks.take(k));
        assert(marks.take(k + 1).last() == marks[k]);
        if marks[k].node != other {
            let i = choose|i: int| 0 <= i < pending.len() && pending[i] == other;
            let next = pending_after(node, marks.take(k + 1))->0;
            assert(next[i] == other);
            lemma_pending_is_marked(node, marks, k + 1, other);
        }
    }
}

/// Where all marks were due, the first ones were.
proof fn lemma_due(node: u64, marks: Seq<Mark>, k: int)
    requires
        pending_after(node, marks) is Some,
        0 <= k <= marks.len(),
    ensures
        pending_after(node, marks.take(k)) is Some,
    decreases marks.len(),
{
    if k == marks.len() {
        assert(marks.take(k) =~= marks);
    } else {
        lemma_due(node, marks.drop_last(), k);
        assert(marks.drop_last().take(k) =~= marks.take(k));
    }
}

/// When a marking has ended, the mark came to every node that it was passed on to.
pub proof fn marks_are_passed_on(node: u64, marks: Seq<Mark>, i: int, other: u64)
    requires
        pending_after(node, marks) == Some(Seq::<u64>::empty()),
        0 <= i < marks.len(),
        marks[i].passed_on.contains(other),
    ensures
        exists|j: int| i < j < marks.len() && (#[trigger] marks[j]).node == other,
{
    lemma_due(node, marks, i + 1);
    assert(marks.take(i + 1).last() == marks[i]);
    let passed_on = marks[i].passed_on;
    let k = choose|k: int| 0 <= k < passed_on.len() && passed_on[k] == other;
    let before = pending_after(node, marks.take(i + 1).drop_last())->0;
    let pending = pending_after(node, marks.take(i + 1))->0;
    assert(pending[before.len() - 1 + passed_on.len() - 1 - k] == other);
    lemma_pending_is_marked(node, marks, i + 1, other);
}

/// Whether each node of a chain is among those that the one before it passes the mark on to.
pub open spec fn is_chain(passed_on: spec_fn(u64) -> Seq<u64>, chain: Seq<u64>) -> bool {
    forall|i: int, j: int|
        0 <= i && j == i + 1 && j < chain.len() ==> passed_on(#[trigger] chain[i]).contains(#[trigger] chain[j])
}

/// When a marking has ended, the mark came to every node at the end of a chain of uses that starts with
/// the node it began with.
pub proof fn marking_reaches_all_users(
    node: u64,
    marks: Seq<Mark>,
    passed_on: spec_fn(u64) -> Seq<u64>,
    chain: Seq<u64>,
)
    requires
        pending_after(node, marks) == Some(Seq::<u64>::empty()),
        forall|i: int| 0 <= i < marks.len() ==> (#[trigger] marks[i]).passed_on == passed_on(marks[i].node),
        chain.len() > 0,
        chain[0] == node,
        is_chain(passed_on, chain),
    ensures
        exists|j: int| 0 <= j < marks.len() && (#[trigger] marks[j]).node == chain.last(),
    decreases chain.len(),
{
    if chain.len() == 1 {
        assert(marks.take(0) =~= Seq::<Mark>::empty());
        assert(seq![node].contains(node)) by {
            assert(seq![node][0] == node);
        }
        lemma_pending_is_marked(node, marks, 0, node);
    } else {
        let before = chain.drop_last();
        assert(is_chain(passed_on, before));
        marking_reaches_all_users(node, marks, passed_on, before);
        let i = choose|i: int| 0 <= i < marks.len() && (#[trigger] marks[i]).node == before.last();
        assert(passed_on(chain[chain.len() - 2]).contains(chain[chain.len() - 1]));
        marks_are_passed_on(node, marks, i, chain.last());
    }
}

/// A marking starts with its node alone. A mark is due where its node is the next, and what it is passed on to
/// comes next, the first of them first.
pub proof fn marks_come_when_they_are_due(node: u64, marks: Seq<Mark>, mark: Mark, pending: Seq<u64>)
    requires
        pending_after(node, marks) == Some(pending),
    ensures
        pending_after(node, Seq::empty()) == Some(seq![node]),
        pending.len() > 0 && pending.last() == mark.node ==> pending_after(node, marks.push(mark)) == Some(
            pending.drop_last() + mark.passed_on.reverse(),
        ),
        pending.len() == 0 || pending.last() != mark.node ==> pending_after(node, marks.push(mark)) is None,
{
    assert(marks.push(mark).drop_last() =~= marks);
}

} // verus!
