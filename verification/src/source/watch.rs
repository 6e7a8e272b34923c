//! Watching directories for changes.
//!
//! Every watched directory has a sequence number, which grows with each event. Who looks at a
//! directory remembers the number that it had when the look began.

use std::collections::HashMap;

use slab::Slab;
use vstd::prelude::*;

use crate::base::slab_map::{self, slab_get, slab_insert, slab_into_vec, slab_new};

verus! {

broadcast use vstd::std_specs::hash::group_hash_axioms;

/// How far below a watched directory changes are reported.
#[derive(Clone, Copy, PartialEq, Eq, Structural, Debug)]
pub enum WatchDepth {
    One,
    Infinite,
}

/// Changes are reported for the entries of a directory, and not for those below them.
pub fn watch_depth() -> (r: WatchDepth)
    ensures
        r == WatchDepth::One,
{
    WatchDepth::One
}

/// A count of events, and who waits for the next one.
pub struct WaitState {
    pub sequence_number: u64,
    pub wakers: Slab<u64>,
}

/// A directory that is watched for an entry monitor.
pub struct WatchedNode {
    pub wait_state: WaitState,
    pub source_monitor: u64,
}

/// All watched directories, by watch descriptor.
pub struct WatchPort {
    pub nodes: HashMap<i32, WatchedNode>,
    pub any_change: WaitState,
}

/// One look at a watched directory.
#[derive(Clone, Copy, PartialEq, Eq, Structural, Debug)]
pub struct WatchNode {
    pub desc: i32,
    pub last_observed_sequence_number: u64,
}

#[derive(Clone, Copy, PartialEq, Eq, Structural, Debug)]
pub struct ObserveGuard {
    pub prior_sequence_number: u64,
    pub observation_sequence_number: u64,
}

/// What is known of a watched directory.
#[verifier::ext_equal]
pub struct NodeModel {
    pub sequence_number: int,
    pub wakers: Map<usize, u64>,
    pub source_monitor: u64,
}

pub open spec fn node_model(node: WatchedNode) -> NodeModel {
    NodeModel {
        sequence_number: node.wait_state.sequence_number as int,
        wakers: slab_map::slab_contents(node.wait_state.wakers),
        source_monitor: node.source_monitor,
    }
}

pub open spec fn nodes_model(nodes: Map<i32, WatchedNode>) -> Map<i32, NodeModel> {
    nodes.map_values(|node: WatchedNode| node_model(node))
}

/// A directory after one more event: nobody waits any more.
pub open spec fn bumped(node: NodeModel) -> NodeModel {
    NodeModel {
        sequence_number: node.sequence_number + 1,
        wakers: Map::empty(),
        source_monitor: node.source_monitor,
    }
}

/// The watched directories after events.
pub open spec fn after_events(nodes: Map<i32, NodeModel>, wds: Seq<i32>) -> Map<i32, NodeModel>
    decreases wds.len(),
{
    if wds.len() == 0 {
        nodes
    } else {
        let m = after_events(nodes, wds.drop_last());
        if m.contains_key(wds.last()) {
            m.insert(wds.last(), bumped(m[wds.last()]))
        } else {
            m
        }
    }
}

/// What each event found: the directory that it is for, as it was before.
pub open spec fn events_found(nodes: Map<i32, NodeModel>, wds: Seq<i32>) -> Seq<NodeModel>
    decreases wds.len(),
{
    if wds.len() == 0 {
        Seq::empty()
    } else {
        let m = after_events(nodes, wds.drop_last());
        let found = events_found(nodes, wds.drop_last());
        if m.contains_key(wds.last()) {
            found.push(m[wds.last()])
        } else {
            found
        }
    }
}

/// Events never make a directory known or forgotten, and no sequence number goes back.
pub proof fn sequence_numbers_grow(nodes: Map<i32, NodeModel>, wds: Seq<i32>, wd: i32)
    ensures
        after_events(nodes, wds).contains_key(wd) == nodes.contains_key(wd),
        nodes.contains_key(wd) ==> nodes[wd].sequence_number <= after_events(
            nodes,
            wds,
        )[wd].sequence_number <= nodes[wd].sequence_number + wds.len(),
        nodes.contains_key(wd) && wds.contains(wd) ==> nodes[wd].sequence_number < after_events(
            nodes,
            wds,
        )[wd].sequence_number,
        nodes.contains_key(wd) ==> nodes[wd].source_monitor == after_events(
            nodes,
            wds,
        )[wd].source_monitor,
    decreases wds.len(),
{
    if wds.len() > 0 {
        sequence_numbers_grow(nodes, wds.drop_last(), wd);
        if wds.contains(wd) && wds.last() != wd {
            let k = choose|k: int| 0 <= k < wds.len() && wds[k] == wd;
            assert(wds.drop_last()[k] == wd);
        }
    }
}

/// Whom to tell of an event.
pub struct Notice {
    pub source_monitor: u64,
    pub wakers: Vec<(usize, u64)>,
}

/// What came of a batch of events.
pub struct PollOutcome {
    pub events_processed: usize,
    pub notices: Vec<Notice>,
    /// Who waited for any change.
    pub wakers: Vec<(usize, u64)>,
}

/// How many bytes an event takes before its name.
pub const EVENT_HEADER_SIZE: usize = 16;

/// In which order a machine keeps the bytes of a number.
#[derive(Clone, Copy, PartialEq, Eq, Structural, Debug)]
pub enum ByteOrder {
    LittleEndian,
    BigEndian,
}

/// The number that four bytes stand for.
pub open spec fn number_of(bytes: Seq<u8>, order: ByteOrder) -> u32 {
    match order {
        ByteOrder::LittleEndian => vstd::bytes::spec_u32_from_le_bytes(bytes),
        ByteOrder::BigEndian => vstd::bytes::spec_u32_from_le_bytes(bytes.reverse()),
    }
}

/// How many bytes an event takes in all.
pub open spec fn event_size(bytes: Seq<u8>, order: ByteOrder) -> int {
    EVENT_HEADER_SIZE + number_of(bytes.subrange(12, 16), order)
}

/// The watch descriptors of the events in a buffer. `None` where the last one is cut off.
pub open spec fn event_wds(bytes: Seq<u8>, order: ByteOrder) -> Option<Seq<i32>>
    decreases bytes.len(),
{
    if bytes.len() < EVENT_HEADER_SIZE {
        Some(Seq::empty())
    } else if event_size(bytes, order) > bytes.len() {
        None
    } else {
        match event_wds(bytes.skip(event_size(bytes, order)), order) {
            None => None,
            Some(rest) => Some(
                seq![number_of(bytes.subrange(0, 4), order) as i32] + rest,
            ),
        }
    }
}

/// Reads the number that four bytes of a buffer stand for.
fn read_number(bytes: &[u8], at: usize, order: ByteOrder) -> (r: u32)
    requires
        at + 4 <= bytes@.len(),
    ensures
        r == number_of(bytes@.subrange(at as int, at + 4), order),
{
    let total: usize = bytes.len();
    assert(at + 4 <= total);
    match order {
        ByteOrder::LittleEndian => vstd::bytes::u32_from_le_bytes(
            vstd::slice::slice_subrange(bytes, at, at + 4),
        ),
        ByteOrder::BigEndian => {
            let mut reversed: Vec<u8> = Vec::new();
            reversed.push(bytes[at + 3]);
            reversed.push(bytes[at + 2]);
            reversed.push(bytes[at + 1]);
            reversed.push(bytes[at]);
            assert(reversed@ =~= bytes@.subrange(at as int, at + 4).reverse());
            vstd::bytes::u32_from_le_bytes(reversed.as_slice())
        },
    }
}

/// Reads the watch descriptors of the events in a buffer, on a machine that keeps numbers in an order.
pub fn parse_events(bytes: &[u8], order: ByteOrder) -> (r: Option<Vec<i32>>)
    ensures
        match r {
            Some(wds) => event_wds(bytes@, order) == Some(wds@),
            None => event_wds(bytes@, order) is None,
        },
{
    let mut wds: Vec<i32> = Vec::new();
    let total: usize = bytes.len();
    let mut at: usize = 0;
    proof {
        assert(bytes@.skip(0) =~= bytes@);
        if let Some(rest) = event_wds(bytes@, order) {
            assert(wds@ + rest =~= rest);
        }
    }
    while total - at >= EVENT_HEADER_SIZE
        invariant
            total == bytes@.len(),
            at <= total,
            event_wds(bytes@, order) == match event_wds(bytes@.skip(at as int), order) {
                None => None,
                Some(rest) => Some(wds@ + rest),
            },
        decreases total - at,
    {
        let ghost left = bytes@.skip(at as int);
        let wd: u32 = read_number(bytes, at, order);
        let len: u32 = read_number(bytes, at + 12, order);
        proof {
            assert(bytes@.subrange(at as int, at + 4) =~= left.subrange(0, 4));
            assert(bytes@.subrange(at + 12, at + 16) =~= left.subrange(12, 16));
        }
        if len as u64 > (total - at - EVENT_HEADER_SIZE) as u64 {
            return None;
        }
        let size: usize = EVENT_HEADER_SIZE + len as usize;
        let ghost before = wds@;
        wds.push(wd as i32);
        proof {
            assert(left.skip(size as int) =~= bytes@.skip(at + size));
            if let Some(rest) = event_wds(bytes@.skip(at + size), order) {
                assert(before + (seq![wd as i32] + rest) =~= wds@ + rest);
            }
        }
        at += size;
    }
    assert(wds@ + Seq::<i32>::empty() =~= wds@);
    Some(wds)
}

impl WaitState {
    pub fn new() -> (r: WaitState)
        ensures
            r.sequence_number == 0,
            slab_map::slab_contents(r.wakers) == Map::<usize, u64>::empty(),
    {
        let wakers = slab_new();
        assert(slab_map::slab_contents(wakers) =~= Map::<usize, u64>::empty());
        WaitState { sequence_number: 0, wakers }
    }

    /// Counts an event, and takes out who waited for it.
    fn bump(&mut self) -> (r: Vec<(usize, u64)>)
        requires
            old(self).sequence_number < u64::MAX,
        ensures
            final(self).sequence_number == old(self).sequence_number + 1,
            slab_map::slab_contents(final(self).wakers) == Map::<usize, u64>::empty(),
            slab_map::lists_in_order(r@, slab_map::slab_contents(old(self).wakers)),
    {
        let mut wakers = slab_new();
        assert(slab_map::slab_contents(wakers) =~= Map::<usize, u64>::empty());
        core::mem::swap(&mut wakers, &mut self.wakers);
        self.sequence_number = self.sequence_number + 1;
        slab_into_vec(wakers)
    }
}

impl WatchPort {
    pub fn new() -> (r: WatchPort)
        ensures
            r.nodes@ == Map::<i32, WatchedNode>::empty(),
            r.any_change.sequence_number == 0,
            slab_map::slab_contents(r.any_change.wakers) == Map::<usize, u64>::empty(),
    {
        WatchPort { nodes: HashMap::new(), any_change: WaitState::new() }
    }

    /// Starts a look at a directory that is watched under a descriptor. The same descriptor can
    /// come again for a directory that is watched already.
    pub fn watched(&mut self, desc: i32, source_monitor: u64) -> (r: WatchNode)
        ensures
            final(self).any_change == old(self).any_change,
            r.desc == desc,
            if old(self).nodes@.contains_key(desc) {
                &&& final(self).nodes@ == old(self).nodes@
                &&& r.last_observed_sequence_number
                    == old(self).nodes@[desc].wait_state.sequence_number
            } else {
                &&& r.last_observed_sequence_number == 0
                &&& nodes_model(final(self).nodes@) == nodes_model(old(self).nodes@).insert(
                    desc,
                    NodeModel { sequence_number: 0, wakers: Map::empty(), source_monitor },
                )
            },
    {
        match self.nodes.get(&desc) {
            Some(node) => {
                return WatchNode {
                    desc,
                    last_observed_sequence_number: node.wait_state.sequence_number,
                };
            },
            None => {},
        }
        let ghost before = self.nodes@;
        let node = WatchedNode { wait_state: WaitState::new(), source_monitor };
        self.nodes.insert(desc, node);
        assert(nodes_model(self.nodes@) =~= nodes_model(before).insert(
            desc,
            NodeModel { sequence_number: 0, wakers: Map::empty(), source_monitor },
        ));
        WatchNode { desc, last_observed_sequence_number: 0 }
    }

    /// Forgets a directory.
    pub fn unwatch(&mut self, desc: i32)
        ensures
            final(self).nodes@ == old(self).nodes@.remove(desc),
            final(self).any_change == old(self).any_change,
    {
        self.nodes.remove(&desc);
    }

    /// The sequence number of a watched directory.
    pub fn sequence_number(&self, desc: i32) -> (r: Option<u64>)
        ensures
            r == if self.nodes@.contains_key(desc) {
                Some(self.nodes@[desc].wait_state.sequence_number)
            } else {
                None
            },
    {
        match self.nodes.get(&desc) {
            Some(node) => Some(node.wait_state.sequence_number),
            None => None,
        }
    }

    /// Counts events, and says whom to tell.
    pub fn poll(&mut self, wds: &Vec<i32>) -> (r: PollOutcome)
        requires
            old(self).any_change.sequence_number < u64::MAX,
            forall|wd: i32|
                old(self).nodes@.contains_key(wd) ==> (
                #[trigger] old(self).nodes@[wd]).wait_state.sequence_number + wds@.len() <= u64::MAX,
        ensures
            r.events_processed == wds@.len(),
            nodes_model(final(self).nodes@) == after_events(nodes_model(old(self).nodes@), wds@),
            ({
                let found = events_found(nodes_model(old(self).nodes@), wds@);
                &&& r.notices@.len() == found.len()
                &&& forall|i: int|
                    0 <= i < found.len() ==> {
                        &&& (#[trigger] r.notices@[i]).source_monitor == found[i].source_monitor
                        &&& slab_map::lists_in_order(r.notices@[i].wakers@, found[i].wakers)
                    }
                &&& if found.len() > 0 {
                    &&& final(self).any_change.sequence_number
                        == old(self).any_change.sequence_number + 1
                    &&& slab_map::slab_contents(final(self).any_change.wakers) == Map::<
                        usize,
                        u64,
                    >::empty()
                    &&& slab_map::lists_in_order(
                        r.wakers@,
                        slab_map::slab_contents(old(self).any_change.wakers),
                    )
                } else {
                    final(self).any_change == old(self).any_change && r.wakers@.len() == 0
                }
            }),
    {
        let ghost start = nodes_model(self.nodes@);
        let ghost any = self.any_change;
        let mut notices: Vec<Notice> = Vec::new();
        let mut i: usize = 0;
        assert(wds@.take(0) =~= Seq::<i32>::empty());
        while i < wds.len()
            invariant
                i <= wds@.len(),
                self.any_change == any,
                any == old(self).any_change,
                start == nodes_model(old(self).nodes@),
                forall|wd: i32|
                    start.contains_key(wd) ==> (#[trigger] start[wd]).sequence_number + wds@.len()
                        <= u64::MAX,
                nodes_model(self.nodes@) == after_events(start, wds@.take(i as int)),
                notices@.len() == events_found(start, wds@.take(i as int)).len(),
                forall|k: int|
                    0 <= k < notices@.len() ==> {
                        let found = events_found(start, wds@.take(i as int));
                        &&& (#[trigger] notices@[k]).source_monitor == found[k].source_monitor
                        &&& slab_map::lists_in_order(notices@[k].wakers@, found[k].wakers)
                    },
            decreases wds@.len() - i,
        {
            let wd: i32 = wds[i];
            let ghost before = self.nodes@;
            proof {
                assert(wds@.take(i + 1).drop_last() =~= wds@.take(i as int));
                sequence_numbers_grow(start, wds@.take(i as int), wd);
                assert(nodes_model(before).contains_key(wd) == before.contains_key(wd));
            }
            match self.nodes.remove(&wd) {
                Some(mut node) => {
                    let ghost old_node = node_model(node);
                    proof {
                        assert(nodes_model(before)[wd] == old_node);
                        assert(start[wd].sequence_number + wds@.len() <= u64::MAX);
                    }
                    let wakers = node.wait_state.bump();
                    notices.push(Notice { source_monitor: node.source_monitor, wakers });
                    let ghost new_node = node_model(node);
                    self.nodes.insert(wd, node);
                    proof {
                        assert(new_node =~= bumped(old_node));
                        assert(nodes_model(self.nodes@) =~= nodes_model(before).insert(
                            wd,
                            bumped(old_node),
                        ));
                    }
                },
                None => {
                    assert(self.nodes@ =~= before);
                },
            }
            i += 1;
        }
        assert(wds@.take(wds@.len() as int) =~= wds@);
        let wakers = if notices.len() > 0 {
            self.any_change.bump()
        } else {
            Vec::new()
        };
        PollOutcome { events_processed: i, notices, wakers }
    }

    /// Starts to look for any change.
    pub fn will_observe_any_change(&self) -> (r: u64)
        ensures
            r == self.any_change.sequence_number,
    {
        self.any_change.sequence_number
    }

    /// Whether anything changed since the look began, which begins anew then.
    pub fn any_change_guard_check_dirty(&self, observation_sequence_number: &mut u64) -> (r: bool)
        ensures
            r == (self.any_change.sequence_number > *old(observation_sequence_number)),
            *final(observation_sequence_number) == if r {
                self.any_change.sequence_number
            } else {
                *old(observation_sequence_number)
            },
    {
        if self.any_change.sequence_number > *observation_sequence_number {
            *observation_sequence_number = self.any_change.sequence_number;
            true
        } else {
            false
        }
    }
}

/// Waiting for any change after a look began.
pub struct WaitForAnyChange {
    pub observation_sequence_number: u64,
    pub waker_index: Option<usize>,
}

impl WaitForAnyChange {
    pub fn new(observation_sequence_number: u64) -> (r: WaitForAnyChange)
        ensures
            r == (WaitForAnyChange { observation_sequence_number, waker_index: None }),
    {
        WaitForAnyChange { observation_sequence_number, waker_index: None }
    }

    /// Whether the wait is over. If not, `waker` is among those who are told of the next change.
    pub fn poll(&mut self, any_change: &mut WaitState, waker: u64) -> (r: bool)
        ensures
            final(self).observation_sequence_number == old(self).observation_sequence_number,
            final(any_change).sequence_number == old(any_change).sequence_number,
            r == (old(any_change).sequence_number > old(self).observation_sequence_number),
            ({
                let wakers = slab_map::slab_contents(old(any_change).wakers);
                let kept = old(self).waker_index matches Some(k) && wakers.contains_key(k)
                    && wakers[k] == waker;
                if r || kept {
                    *final(self) == *old(self) && final(any_change).wakers == old(any_change).wakers
                } else {
                    &&& final(self).waker_index matches Some(k)
                    &&& !wakers.contains_key(k)
                    &&& slab_map::slab_contents(final(any_change).wakers) == wakers.insert(k, waker)
                }
            }),
    {
        if any_change.sequence_number > self.observation_sequence_number {
            return true;
        }
        let kept = match self.waker_index {
            Some(k) => match slab_get(&any_change.wakers, k) {
                Some(w) => w == waker,
                None => false,
            },
            None => false,
        };
        if !kept {
            self.waker_index = Some(slab_insert(&mut any_change.wakers, waker));
        }
        false
    }
}

impl WatchNode {
    pub open spec fn changed(self, sequence_number: u64) -> bool {
        sequence_number > self.last_observed_sequence_number
    }

    pub open spec fn guard(self, sequence_number: u64) -> ObserveGuard {
        ObserveGuard {
            prior_sequence_number: self.last_observed_sequence_number,
            observation_sequence_number: sequence_number,
        }
    }

    /// A look at the same directory that has seen nothing yet.
    pub open spec fn fresh(self) -> WatchNode {
        WatchNode { desc: self.desc, last_observed_sequence_number: 0 }
    }

    pub fn duplicate(&self) -> (r: WatchNode)
        ensures
            r == self.fresh(),
    {
        WatchNode { desc: self.desc, last_observed_sequence_number: 0 }
    }

    /// Whether there were events since the last look.
    pub fn has_changed(&self, sequence_number: u64) -> (r: bool)
        ensures
            r == self.changed(sequence_number),
    {
        sequence_number > self.last_observed_sequence_number
    }

    /// Starts a look.
    pub fn will_observe(&self, sequence_number: u64) -> (r: ObserveGuard)
        ensures
            r == self.guard(sequence_number),
    {
        ObserveGuard {
            prior_sequence_number: self.last_observed_sequence_number,
            observation_sequence_number: sequence_number,
        }
    }
}

impl ObserveGuard {
    /// A node after the look ended. Another look may have ended in between, which stands then.
    pub open spec fn committed(self, node: WatchNode) -> WatchNode {
        if node.last_observed_sequence_number == self.prior_sequence_number {
            WatchNode {
                desc: node.desc,
                last_observed_sequence_number: self.observation_sequence_number,
            }
        } else {
            node
        }
    }

    /// Ends a look.
    pub fn commit(&self, node: WatchNode) -> (r: WatchNode)
        ensures
            r == self.committed(node),
    {
        if node.last_observed_sequence_number == self.prior_sequence_number {
            WatchNode {
                desc: node.desc,
                last_observed_sequence_number: self.observation_sequence_number,
            }
        } else {
            node
        }
    }
}

/// A change that comes while a look is under way is not lost: the directory counts as changed after
/// the look ended.
pub proof fn change_during_look_is_seen(node: WatchNode, before: u64, after: u64)
    requires
        before < after,
    ensures
        node.guard(before).committed(node).changed(after),
{
}

/// Without a change, a directory counts as unchanged after a look.
pub proof fn look_settles(node: WatchNode, sequence_number: u64)
    ensures
        !node.guard(sequence_number).committed(node).changed(sequence_number),
{
}

/// Each event for a watched directory counts once for it, and for no other. Who waited does so no more after
/// the first.
pub proof fn events_are_counted(nodes: Map<i32, NodeModel>, wds: Seq<i32>, wd: i32)
    requires
        nodes.contains_key(wd),
    ensures
        after_events(nodes, wds).contains_key(wd),
        after_events(nodes, wds)[wd].sequence_number == nodes[wd].sequence_number + wds.filter(
            |w: i32| w == wd,
        ).len(),
        after_events(nodes, wds)[wd].wakers == if wds.contains(wd) {
            Map::empty()
        } else {
            nodes[wd].wakers
        },
        after_events(nodes, wds)[wd].source_monitor == nodes[wd].source_monitor,
    decreases wds.len(),
{
    reveal(Seq::filter);
    if wds.len() > 0 {
        let before = wds.drop_last();
        events_are_counted(nodes, before, wd);
        if wds.contains(wd) {
            let k = choose|k: int| 0 <= k < wds.len() && wds[k] == wd;
            if k < before.len() {
                assert(before[k] == wd);
            }
        }
        if before.contains(wd) {
            let k = choose|k: int| 0 <= k < before.len() && before[k] == wd;
            assert(wds[k] == wd);
        }
        if wds.last() == wd {
            assert(wds[wds.len() - 1] == wd);
        }
    }
}

/// An event for a directory that is watched finds it as it was before, and one for any other finds nothing.
pub proof fn events_find_their_directories(nodes: Map<i32, NodeModel>, wds: Seq<i32>, wd: i32)
    ensures
        events_found(nodes, Seq::empty()) == Seq::<NodeModel>::empty(),
        events_found(nodes, wds.push(wd)) == if after_events(nodes, wds).contains_key(wd) {
            events_found(nodes, wds).push(after_events(nodes, wds)[wd])
        } else {
            events_found(nodes, wds)
        },
{
    assert(wds.push(wd).drop_last() =~= wds);
}

/// Numbers are read in the order of the machine: with the lowest byte first, or with the highest.
pub proof fn numbers_are_read_in_their_order(n: u32)
    ensures
        number_of(vstd::bytes::spec_u32_to_le_bytes(n), ByteOrder::LittleEndian) == n,
        number_of(vstd::bytes::spec_u32_to_le_bytes(n).reverse(), ByteOrder::BigEndian) == n,
{
    vstd::bytes::lemma_auto_spec_u32_to_from_le_bytes();
    let bytes = vstd::bytes::spec_u32_to_le_bytes(n);
    assert(bytes.reverse().reverse() =~= bytes);
    assert(bytes.len() == 4);
}

/// Events follow each other without a gap: each takes sixteen bytes and those of its name, whose number stands
/// in the last four of the sixteen. Its descriptor stands in the first four. One that is cut off fails the
/// whole.
pub proof fn events_follow_each_other(bytes: Seq<u8>, order: ByteOrder)
    ensures
        bytes.len() < 16 ==> event_wds(bytes, order) == Some(Seq::<i32>::empty()),
        bytes.len() >= 16 ==> {
            let size = 16 + number_of(bytes.subrange(12, 16), order);
            &&& size > bytes.len() ==> event_wds(bytes, order) is None
            &&& size <= bytes.len() ==> match event_wds(bytes.skip(size), order) {
                None => event_wds(bytes, order) is None,
                Some(rest) => event_wds(bytes, order) == Some(
                    seq![number_of(bytes.subrange(0, 4), order) as i32] + rest,
                ),
            }
        },
{
}

/// A directory has changed for a look exactly where events came since it. A look that ended has seen all that
/// came before it began. Where another look ended meanwhile, that one stands. A fresh look has seen nothing.
pub proof fn looks_see_what_came_before(node: WatchNode, guard: ObserveGuard, sequence_number: u64)
    ensures
        node.changed(sequence_number) <==> sequence_number > node.last_observed_sequence_number,
        node.guard(sequence_number).prior_sequence_number == node.last_observed_sequence_number,
        node.guard(sequence_number).observation_sequence_number == sequence_number,
        node.fresh().desc == node.desc,
        node.fresh().last_observed_sequence_number == 0,
        guard.committed(node).desc == node.desc,
        guard.committed(node).last_observed_sequence_number == if node.last_observed_sequence_number
            == guard.prior_sequence_number {
            guard.observation_sequence_number
        } else {
            node.last_observed_sequence_number
        },
{
}

/// What is known of watched directories is told one by one.
pub proof fn watched_directories_are_told_one_by_one(nodes: Map<i32, WatchedNode>, wd: i32)
    ensures
        nodes_model(nodes).contains_key(wd) == nodes.contains_key(wd),
        nodes.contains_key(wd) ==> {
            let m = nodes_model(nodes)[wd];
            &&& m.sequence_number == nodes[wd].wait_state.sequence_number
            &&& m.wakers == slab_map::slab_contents(nodes[wd].wait_state.wakers)
            &&& m.source_monitor == nodes[wd].source_monitor
        },
        EVENT_HEADER_SIZE == 16,
{
}

} // verus!
