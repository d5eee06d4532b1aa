//! Tool approvals waiting on the user: requests are answered strictly in the order
//! they arrived, each answer is written into the oldest approval still pending in
//! the transcript, and a lost session denies everything that waits.

use vstd::prelude::*;
use std::collections::VecDeque;
use crate::picker::{approval_status_for, decided_status, ApprovalDecision, ApprovalStatus};

verus! {

/// How many approvals are still pending.
pub open spec fn count_pending(s: Seq<ApprovalStatus>) -> nat
    decreases s.len(),
{
    if s.len() == 0 {
        0
    } else {
        count_pending(s.drop_last()) + if s.last() == ApprovalStatus::Pending {
            1nat
        } else {
            0nat
        }
    }
}

/// Index of the first pending approval, or the length.
pub open spec fn first_pending(s: Seq<ApprovalStatus>) -> int
    decreases s.len(),
{
    if s.len() == 0 {
        0
    } else if s[0] == ApprovalStatus::Pending {
        0
    } else {
        1 + first_pending(s.drop_first())
    }
}

/// Every pending approval turned into a denial.
pub open spec fn deny_pending(s: Seq<ApprovalStatus>) -> Seq<ApprovalStatus> {
    s.map_values(
        |x: ApprovalStatus| if x == ApprovalStatus::Pending {
            ApprovalStatus::Denied
        } else {
            x
        },
    )
}

/// The waiting requests, oldest first, beside the statuses of the approvals shown
/// in the transcript.
pub struct ApprovalQueue<T> {
    pending: VecDeque<T>,
    statuses: Vec<ApprovalStatus>,
}

impl<T> ApprovalQueue<T> {
    /// The waiting requests, oldest first.
    pub closed spec fn pending_view(&self) -> Seq<T> {
        self.pending@
    }

    /// The approvals of the transcript, in order.
    pub closed spec fn statuses_view(&self) -> Seq<ApprovalStatus> {
        self.statuses@
    }

    /// As many approvals are pending as requests wait.
    #[verifier::type_invariant]
    spec fn matches_transcript(&self) -> bool {
        count_pending(self.statuses@) == self.pending@.len()
    }
}

proof fn lemma_count_push(s: Seq<ApprovalStatus>, x: ApprovalStatus)
    ensures
        count_pending(s.push(x)) == count_pending(s) + if x == ApprovalStatus::Pending {
            1nat
        } else {
            0nat
        },
{
    assert(s.push(x).drop_last() == s);
}

proof fn lemma_first_pending(s: Seq<ApprovalStatus>)
    ensures
        0 <= first_pending(s) <= s.len(),
        first_pending(s) < s.len() ==> s[first_pending(s)] == ApprovalStatus::Pending,
        count_pending(s) > 0 ==> first_pending(s) < s.len(),
        forall|k: int| 0 <= k < first_pending(s) ==> s[k] != ApprovalStatus::Pending,
    decreases s.len(),
{
    if s.len() > 0 {
        lemma_first_pending(s.drop_first());
        lemma_count_front(s);
        assert forall|k: int| 0 <= k < first_pending(s) implies s[k] != ApprovalStatus::Pending by {
            if s[0] != ApprovalStatus::Pending && k > 0 {
                assert(s[k] == s.drop_first()[k - 1]);
            }
        }
    }
}

proof fn lemma_count_front(s: Seq<ApprovalStatus>)
    requires
        s.len() > 0,
    ensures
        count_pending(s) == count_pending(s.drop_first()) + if s[0] == ApprovalStatus::Pending {
            1nat
        } else {
            0nat
        },
    decreases s.len(),
{
    if s.len() > 1 {
        lemma_count_front(s.drop_last());
        assert(s.drop_last().drop_first() == s.drop_first().drop_last());
        assert(s.drop_first().last() == s.last());
        assert(s.drop_last()[0] == s[0]);
        assert(count_pending(s.drop_first()) == count_pending(s.drop_first().drop_last()) + if s.drop_first().last()
            == ApprovalStatus::Pending {
            1nat
        } else {
            0nat
        });
    } else {
        assert(s.drop_first().len() == 0);
        assert(s.drop_last().len() == 0);
        assert(s.last() == s[0]);
        assert(count_pending(s.drop_first()) == 0);
        assert(count_pending(s.drop_last()) == 0);
    }
}

proof fn lemma_count_update(s: Seq<ApprovalStatus>, i: int, x: ApprovalStatus)
    requires
        0 <= i < s.len(),
        s[i] == ApprovalStatus::Pending,
        x != ApprovalStatus::Pending,
    ensures
        count_pending(s.update(i, x)) + 1 == count_pending(s),
    decreases s.len(),
{
    if i == s.len() - 1 {
        assert(s.update(i, x).drop_last() == s.drop_last());
    } else {
        lemma_count_update(s.drop_last(), i, x);
        assert(s.update(i, x).drop_last() == s.drop_last().update(i, x));
    }
}

pub proof fn lemma_deny_pending_count(s: Seq<ApprovalStatus>)
    ensures
        count_pending(deny_pending(s)) == 0,
    decreases s.len(),
{
    if s.len() > 0 {
        lemma_deny_pending_count(s.drop_last());
        assert(deny_pending(s).drop_last() == deny_pending(s.drop_last()));
    }
}

impl<T> ApprovalQueue<T> {
    /// Nothing waits and no approval has been shown.
    pub fn new() -> (q: Self)
        ensures
            q.pending_view() == Seq::<T>::empty(),
            q.statuses_view() == Seq::<ApprovalStatus>::empty(),
    {
        ApprovalQueue { pending: VecDeque::new(), statuses: Vec::new() }
    }

    /// A new request waits behind the others and its approval is shown pending.
    pub fn enqueue(&mut self, request: T)
        ensures
            final(self).pending_view() == old(self).pending_view().push(request),
            final(self).statuses_view() == old(self).statuses_view().push(ApprovalStatus::Pending),
            count_pending(final(self).statuses_view()) == final(self).pending_view().len(),
    {
        proof {
            use_type_invariant(&*self);
            lemma_count_push(self.statuses@, ApprovalStatus::Pending);
        }
        let mut taken = ApprovalQueue::new();
        std::mem::swap(&mut taken, self);
        proof {
            use_type_invariant(&taken);
        }
        let ApprovalQueue { mut pending, mut statuses } = taken;
        pending.push_back(request);
        statuses.push(ApprovalStatus::Pending);
        *self = ApprovalQueue { pending, statuses };
    }

    /// The request the approval picker shows: the oldest one waiting.
    pub fn front(&self) -> (r: Option<&T>)
        ensures
            r is Some <==> self.pending_view().len() > 0,
            r matches Some(t) ==> *t == self.pending_view()[0],
    {
        broadcast use vstd::std_specs::vecdeque::group_vec_dequeue_axioms;
        if self.pending.len() == 0 {
            None
        } else {
            Some(&self.pending[0])
        }
    }

    /// Whether a request waits, which keeps the approval picker open.
    pub fn is_waiting(&self) -> (b: bool)
        ensures
            b <==> self.pending_view().len() > 0,
    {
        broadcast use vstd::std_specs::vecdeque::group_vec_dequeue_axioms;
        self.pending.len() > 0
    }

    /// The statuses of the approvals shown in the transcript.
    pub fn statuses(&self) -> (r: &Vec<ApprovalStatus>)
        ensures
            r@ == self.statuses_view(),
    {
        &self.statuses
    }

    /// Answers the oldest waiting request with `decision`: it leaves the queue and is
    /// handed back, and the oldest pending approval in the transcript shows the
    /// answer. Nothing changes when nothing waits.
    pub fn resolve(&mut self, decision: ApprovalDecision) -> (r: Option<T>)
        ensures
            old(self).pending_view().len() == 0 ==> r is None && final(self).pending_view()
                == old(self).pending_view() && final(self).statuses_view() == old(
                self,
            ).statuses_view(),
            old(self).pending_view().len() > 0 ==> r == Some(old(self).pending_view()[0])
                && final(self).pending_view() == old(self).pending_view().drop_first()
                && final(self).statuses_view() == old(self).statuses_view().update(
                first_pending(old(self).statuses_view()),
                decided_status(decision),
            ),
            count_pending(final(self).statuses_view()) == final(self).pending_view().len(),
    {
        broadcast use vstd::std_specs::vecdeque::group_vec_dequeue_axioms;
        proof {
            use_type_invariant(&*self);
        }
        if self.pending.len() == 0 {
            return None;
        }
        let mut taken = ApprovalQueue::new();
        std::mem::swap(&mut taken, self);
        proof {
            use_type_invariant(&taken);
        }
        let ApprovalQueue { mut pending, mut statuses } = taken;
        let ghost old_statuses = statuses@;
        proof {
            lemma_first_pending(old_statuses);
        }
        let request = pending.pop_front().unwrap();
        let mut index: usize = 0;
        while index < statuses.len() && statuses[index] != ApprovalStatus::Pending
            invariant
                statuses@ == old_statuses,
                index <= first_pending(old_statuses),
                first_pending(old_statuses) < old_statuses.len(),
                old_statuses[first_pending(old_statuses)] == ApprovalStatus::Pending,
                forall|k: int|
                    0 <= k < first_pending(old_statuses) ==> old_statuses[k]
                        != ApprovalStatus::Pending,
            decreases old_statuses.len() - index,
        {
            index += 1;
        }
        let status = approval_status_for(decision);
        statuses.set(index, status);
        proof {
            lemma_count_update(old_statuses, index as int, status);
            assert(pending@ =~= old(self).pending_view().drop_first());
        }
        *self = ApprovalQueue { pending, statuses };
        Some(request)
    }

    /// Denies everything that waits: the requests are handed back, oldest first, to
    /// be answered, and every pending approval in the transcript shows a denial.
    pub fn reject_all(&mut self) -> (r: Vec<T>)
        ensures
            r@ == old(self).pending_view(),
            final(self).pending_view() == Seq::<T>::empty(),
            final(self).statuses_view() == deny_pending(old(self).statuses_view()),
            count_pending(final(self).statuses_view()) == 0,
    {
        let mut taken = ApprovalQueue::new();
        std::mem::swap(&mut taken, self);
        proof {
            use_type_invariant(&taken);
        }
        let ApprovalQueue { mut pending, mut statuses } = taken;
        let ghost old_statuses = statuses@;
        let mut i: usize = 0;
        while i < statuses.len()
            invariant
                i <= statuses@.len(),
                statuses@.len() == old_statuses.len(),
                forall|k: int| 0 <= k < i ==> statuses@[k] == deny_pending(old_statuses)[k],
                forall|k: int| i <= k < statuses@.len() ==> statuses@[k] == old_statuses[k],
            decreases statuses@.len() - i,
        {
            if statuses[i] == ApprovalStatus::Pending {
                statuses.set(i, ApprovalStatus::Denied);
            }
            i += 1;
        }
        assert(statuses@ =~= deny_pending(old_statuses));
        proof {
            lemma_deny_pending_count(old_statuses);
        }
        let mut denied: Vec<T> = Vec::new();
        let ghost waiting = pending@;
        while pending.len() > 0
            invariant
                denied@ + pending@ == waiting,
            decreases pending@.len(),
        {
            broadcast use vstd::std_specs::vecdeque::group_vec_dequeue_axioms;
            let ghost before = pending@;
            match pending.pop_front() {
                Some(request) => {
                    denied.push(request);
                    assert(denied@ + pending@ =~= waiting);
                },
                None => {},
            }
        }
        proof {
            broadcast use vstd::std_specs::vecdeque::group_vec_dequeue_axioms;
            assert(pending@.len() == 0);
            assert(denied@ =~= waiting);
        }
        *self = ApprovalQueue { pending: VecDeque::new(), statuses };
        denied
    }
}

} // verus!
