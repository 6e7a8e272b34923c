//! The analysis of a rule: requests that it makes, and the order in which they are answered.

use vstd::prelude::*;

verus! {

/// What a poll of the analysis gave.
#[derive(Clone, Copy, PartialEq, Eq, Structural, Debug)]
pub enum PollOut {
    Done,
    /// So many more requests.
    Requests(usize),
}

/// What the analysis needs next.
#[derive(Clone, Copy, PartialEq, Eq, Structural, Debug)]
pub enum AnalyzeAction {
    /// Issue the requests from the first number up to the second, then give the answer to the
    /// request with the third number as soon as it is there.
    Deliver { issue_from: usize, issue_to: usize, answer: usize },
    Finish,
    /// Nothing is left to answer, and the analysis is not done.
    Stalled,
}

/// Requests are numbered in the order in which they are made.
#[derive(Clone, Copy, PartialEq, Eq, Structural, Debug)]
pub struct AnalyzeRun {
    pub issued: usize,
    pub delivered: usize,
}

impl AnalyzeRun {
    pub open spec fn wf(self) -> bool {
        self.delivered <= self.issued
    }

    pub fn new() -> (r: AnalyzeRun)
        ensures
            r == (AnalyzeRun { issued: 0, delivered: 0 }),
    {
        AnalyzeRun { issued: 0, delivered: 0 }
    }

    /// Goes on after a poll. All requests run at the same time, but are answered in the order in
    /// which they were made.
    pub fn polled(&mut self, out: PollOut) -> (r: AnalyzeAction)
        requires
            old(self).wf(),
            out matches PollOut::Requests(n) ==> old(self).issued + n <= usize::MAX,
        ensures
            final(self).wf(),
            match out {
                PollOut::Done => r == AnalyzeAction::Finish && *final(self) == *old(self),
                PollOut::Requests(n) => {
                    let issued = (old(self).issued + n) as usize;
                    if old(self).delivered < issued {
                        &&& r == (AnalyzeAction::Deliver {
                            issue_from: old(self).issued,
                            issue_to: issued,
                            answer: old(self).delivered,
                        })
                        &&& *final(self) == (AnalyzeRun {
                            issued,
                            delivered: (old(self).delivered + 1) as usize,
                        })
                    } else {
                        r == AnalyzeAction::Stalled && *final(self) == *old(self)
                    }
                },
            },
    {
        match out {
            PollOut::Done => AnalyzeAction::Finish,
            PollOut::Requests(n) => {
                let issue_from: usize = self.issued;
                let issue_to: usize = issue_from + n;
                if self.delivered < issue_to {
                    let answer: usize = self.delivered;
                    self.issued = issue_to;
                    self.delivered = answer + 1;
                    AnalyzeAction::Deliver { issue_from, issue_to, answer }
                } else {
                    AnalyzeAction::Stalled
                }
            },
        }
    }
}

/// The numbers of the requests that are answered when the analysis makes so many requests at each
/// poll.
pub open spec fn answers(requests: Seq<usize>) -> Seq<int>
    decreases requests.len(),
{
    if requests.len() == 0 {
        Seq::empty()
    } else {
        let before = answers(requests.drop_last());
        if before.len() < total(requests) {
            before.push(before.len() as int)
        } else {
            before
        }
    }
}

pub open spec fn total(requests: Seq<usize>) -> nat
    decreases requests.len(),
{
    if requests.len() == 0 {
        0
    } else {
        total(requests.drop_last()) + requests.last() as nat
    }
}

/// Requests are answered in the order in which they are made, each once, and none that was not made.
pub proof fn answers_come_in_order(requests: Seq<usize>, i: int)
    requires
        0 <= i < answers(requests).len(),
    ensures
        answers(requests)[i] == i,
        i < total(requests),
    decreases requests.len(),
{
    let before = answers(requests.drop_last());
    if i < before.len() {
        answers_come_in_order(requests.drop_last(), i);
    }
}

/// At each poll one more request is answered, as long as there is one that was made and is not answered yet.
pub proof fn polls_answer_one_request(requests: Seq<usize>, more: usize)
    ensures
        total(Seq::empty()) == 0,
        total(requests.push(more)) == total(requests) + more,
        answers(Seq::empty()).len() == 0,
        answers(requests.push(more)).len() == answers(requests).len() + if answers(requests).len() < total(requests)
            + more {
            1int
        } else {
            0
        },
{
    assert(requests.push(more).drop_last() =~= requests);
}

} // verus!
