//! Tickets that limit how many processes run at a time.

use slab::Slab;
use vstd::prelude::*;

use crate::base::slab_map::{self, slab_insert, slab_into_vec, slab_new};

verus! {

/// How much may run at a time. Where nothing is said, the machine decides.
#[derive(Clone, Copy)]
pub struct Options {
    pub thread_pool_concurrency: Option<usize>,
    pub process_concurrency: Option<usize>,
}

/// `num_cpus::get` gives the number of CPUs of this machine, which is at least one.
#[verifier::external_body]
fn cpu_count() -> (r: usize)
    ensures
        r >= 1,
{
    num_cpus::get()
}

/// How many processes may run at a time, on a machine with so many CPUs.
pub fn process_concurrency(options: &Options, cpus: usize) -> (r: usize)
    ensures
        r == match options.process_concurrency {
            Some(n) => n,
            None => cpus,
        },
{
    match options.process_concurrency {
        Some(n) => n,
        None => cpus,
    }
}

/// The tickets that are left, and who waits for one.
pub struct ProcessTicketState {
    pub available_process_tickets: usize,
    pub waiters: Slab<u64>,
}

impl ProcessTicketState {
    pub open spec fn waiting(self) -> Map<usize, u64> {
        slab_map::slab_contents(self.waiters)
    }

    /// All tickets are there. Where the options do not say how many, there is one for each CPU of
    /// the machine.
    pub fn new(options: &Options) -> (r: ProcessTicketState)
        ensures
            options.process_concurrency matches Some(n) ==> r.available_process_tickets == n,
            options.process_concurrency is None ==> r.available_process_tickets >= 1,
            r.waiting() == Map::<usize, u64>::empty(),
    {
        let waiters = slab_new();
        assert(slab_map::slab_contents(waiters) =~= Map::<usize, u64>::empty());
        let cpus: usize = cpu_count();
        ProcessTicketState {
            available_process_tickets: process_concurrency(options, cpus),
            waiters,
        }
    }

    /// Takes a ticket. Where there is none, `waker` waits for one.
    pub fn acquire(&mut self, waker: u64) -> (r: bool)
        ensures
            r == (old(self).available_process_tickets > 0),
            if r {
                &&& final(self).available_process_tickets == old(self).available_process_tickets - 1
                &&& final(self).waiters == old(self).waiters
            } else {
                &&& final(self).available_process_tickets == 0
                &&& exists|key: usize|
                    !old(self).waiting().contains_key(key) && #[trigger] old(self).waiting().insert(
                        key,
                        waker,
                    ) == final(self).waiting()
            },
    {
        if self.available_process_tickets == 0 {
            let ghost before = self.waiting();
            let key: usize = slab_insert(&mut self.waiters, waker);
            assert(before.insert(key, waker) == self.waiting());
            false
        } else {
            self.available_process_tickets = self.available_process_tickets - 1;
            true
        }
    }

    /// Gives a ticket back, and takes out all who wait for one.
    pub fn release(&mut self) -> (r: Vec<(usize, u64)>)
        requires
            old(self).available_process_tickets < usize::MAX,
        ensures
            final(self).available_process_tickets == old(self).available_process_tickets + 1,
            final(self).waiting() == Map::<usize, u64>::empty(),
            slab_map::lists_in_order(r@, old(self).waiting()),
    {
        let mut waiters = slab_new();
        assert(slab_map::slab_contents(waiters) =~= Map::<usize, u64>::empty());
        core::mem::swap(&mut waiters, &mut self.waiters);
        self.available_process_tickets = self.available_process_tickets + 1;
        slab_into_vec(waiters)
    }
}

/// What happens to tickets.
pub enum TicketEvent {
    Acquire,
    Release,
}

/// How many tickets are left and held, after one more event. Nothing is given back that is not held.
pub open spec fn tickets_after(left: nat, held: nat, events: Seq<TicketEvent>) -> (nat, nat)
    decreases events.len(),
{
    if events.len() == 0 {
        (left, held)
    } else {
        let (l, h) = tickets_after(left, held, events.drop_last());
        match events.last() {
            TicketEvent::Acquire => if l > 0 {
                ((l - 1) as nat, h + 1)
            } else {
                (l, h)
            },
            TicketEvent::Release => if h > 0 {
                (l + 1, (h - 1) as nat)
            } else {
                (l, h)
            },
        }
    }
}

/// No ticket is lost and none is made: never more processes run than there were tickets.
pub proof fn tickets_are_conserved(left: nat, events: Seq<TicketEvent>)
    ensures
        tickets_after(left, 0, events).0 + tickets_after(left, 0, events).1 == left,
    decreases events.len(),
{
    if events.len() > 0 {
        tickets_are_conserved(left, events.drop_last());
    }
}

/// A ticket is taken only where one is left, and given back only where one is held.
pub proof fn tickets_are_taken_one_by_one(left: nat, held: nat, events: Seq<TicketEvent>)
    ensures
        tickets_after(left, held, Seq::empty()) == (left, held),
        ({
            let (l, h) = tickets_after(left, held, events);
            &&& l > 0 ==> tickets_after(left, held, events.push(TicketEvent::Acquire)) == ((l - 1) as nat, h + 1)
            &&& l == 0 ==> tickets_after(left, held, events.push(TicketEvent::Acquire)) == (l, h)
            &&& h > 0 ==> tickets_after(left, held, events.push(TicketEvent::Release)) == (l + 1, (h - 1) as nat)
            &&& h == 0 ==> tickets_after(left, held, events.push(TicketEvent::Release)) == (l, h)
        }),
{
    assert(events.push(TicketEvent::Acquire).drop_last() =~= events);
    assert(events.push(TicketEvent::Release).drop_last() =~= events);
}

} // verus!
