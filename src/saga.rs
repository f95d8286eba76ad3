use vstd::prelude::*;
use crate::error::TicketError;

verus! {

/// A payment that the host is to make.
#[derive(Debug)]
pub struct Transfer {
    pub receiver: String,
    pub amount: u128,
}

/// Where a saga stands.
#[derive(Clone, Copy, Debug, PartialEq, Eq, Structural)]
pub enum SagaState {
    /// The remote steps are issued and their outcome is not known yet.
    Pending,
    /// Every remote step succeeded.
    Committed,
    /// A remote step failed and the refund was handed out.
    Compensated,
}

/// A saga between its local decision and its remote outcome. It carries what
/// the compensation needs: whom to refund and how much, fixed when the saga
/// began and never read again from the ledger.
#[derive(Debug)]
pub struct Saga {
    pub refund_to: String,
    pub amount: u128,
    pub state: SagaState,
}

/// Every remote step succeeded.
pub open spec fn all_succeeded(results: Seq<bool>) -> bool {
    forall|i: int| 0 <= i < results.len() ==> #[trigger] results[i]
}

/// The saga after its continuation saw `results`, and the refund it hands out.
pub open spec fn settle_spec(s: Saga, results: Seq<bool>) -> (Saga, Option<Transfer>) {
    if s.state != SagaState::Pending {
        (s, None)
    } else if all_succeeded(results) {
        (Saga { state: SagaState::Committed, ..s }, None)
    } else {
        (
            Saga { state: SagaState::Compensated, ..s },
            Some(Transfer { receiver: s.refund_to, amount: s.amount }),
        )
    }
}

/// `Ok` where every remote step succeeded, else `RemoteFailure`.
pub fn check_results(results: &Vec<bool>) -> (r: Result<(), TicketError>)
    ensures
        r == (if all_succeeded(results@) {
            Ok::<(), TicketError>(())
        } else {
            Err(TicketError::RemoteFailure)
        }),
{
    let mut i: usize = 0;
    while i < results.len()
        invariant
            i <= results.len(),
            forall|j: int| 0 <= j < i ==> #[trigger] results@[j],
        decreases results.len() - i,
    {
        if !results[i] {
            return Err(TicketError::RemoteFailure);
        }
        i = i + 1;
    }
    Ok(())
}

impl Saga {
    /// A saga that is waiting for its remote steps.
    pub open spec fn pending_spec(refund_to: String, amount: u128) -> Saga {
        Saga { refund_to, amount, state: SagaState::Pending }
    }

    /// A saga that refunds `amount` to `refund_to` should its remote steps fail.
    pub fn pending(refund_to: String, amount: u128) -> (r: Self)
        ensures
            r == Saga::pending_spec(refund_to, amount),
    {
        Saga { refund_to, amount, state: SagaState::Pending }
    }

    /// The continuation: settles a pending saga on the outcome of its remote
    /// steps and hands out the refund where one failed. A saga that is settled
    /// already stays as it is and refunds nothing.
    pub fn settle(&mut self, results: &Vec<bool>) -> (r: Option<Transfer>)
        ensures
            (*final(self), r) == settle_spec(*old(self), results@),
    {
        if self.state != SagaState::Pending {
            return None;
        }
        match check_results(results) {
            Ok(()) => {
                self.state = SagaState::Committed;
                None
            },
            Err(_) => {
                self.state = SagaState::Compensated;
                Some(Transfer { receiver: self.refund_to.clone(), amount: self.amount })
            },
        }
    }
}

/// A pending saga whose remote steps report a failure refunds exactly what it
/// holds to whom it holds it, and a second run of the continuation, whatever
/// it sees, refunds nothing more.
pub proof fn refund_happens_once(s: Saga, first: Seq<bool>, second: Seq<bool>)
    requires
        s.state == SagaState::Pending,
        !all_succeeded(first),
    ensures
        settle_spec(s, first).1 == Some(Transfer { receiver: s.refund_to, amount: s.amount }),
        settle_spec(settle_spec(s, first).0, second).1 is None,
        settle_spec(settle_spec(s, first).0, second).0 == settle_spec(s, first).0,
{
}

/// Where every remote step succeeded nothing is refunded, now or later.
pub proof fn success_never_refunds(s: Saga, first: Seq<bool>, second: Seq<bool>)
    requires
        s.state == SagaState::Pending,
        all_succeeded(first),
    ensures
        settle_spec(s, first).1 is None,
        settle_spec(s, first).0.state == SagaState::Committed,
        settle_spec(settle_spec(s, first).0, second).1 is None,
{
}

} // verus!
