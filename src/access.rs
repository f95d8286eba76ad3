use vstd::prelude::*;
use crate::error::TicketError;

verus! {

/// The single owner that administrative changes need. `None` once the owner
/// renounced: from then on no caller is the owner.
#[derive(Debug)]
pub struct AccessControl {
    pub owner: Option<String>,
}

impl AccessControl {
    /// `who` is the current owner.
    pub open spec fn owned_by(&self, who: Seq<char>) -> bool {
        match self.owner {
            Some(o) => o@ == who,
            None => false,
        }
    }

    pub fn new(owner: String) -> (r: Self)
        ensures
            r.owner == Some(owner),
    {
        AccessControl { owner: Some(owner) }
    }

    pub fn is_owner(&self, caller: &String) -> (r: bool)
        ensures
            r == self.owned_by(caller@),
    {
        match &self.owner {
            Some(o) => *o == *caller,
            None => false,
        }
    }

    /// Lets the owner through and refuses everyone else.
    pub fn guard(&self, caller: &String) -> (r: Result<(), TicketError>)
        ensures
            r == (if self.owned_by(caller@) {
                Ok::<(), TicketError>(())
            } else {
                Err(TicketError::Unauthorized)
            }),
    {
        if self.is_owner(caller) {
            Ok(())
        } else {
            Err(TicketError::Unauthorized)
        }
    }

    /// Hands ownership to `new_owner`; only the owner may.
    pub fn transfer_ownership(&mut self, caller: &String, new_owner: String) -> (r: Result<
        (),
        TicketError,
    >)
        ensures
            old(self).owned_by(caller@) ==> r is Ok && final(self).owner == Some(new_owner),
            !old(self).owned_by(caller@) ==> r == Err::<(), TicketError>(TicketError::Unauthorized)
                && final(self).owner == old(self).owner,
    {
        self.guard(caller)?;
        self.owner = Some(new_owner);
        Ok(())
    }

    /// Gives ownership up for good; only the owner may.
    pub fn renounce_ownership(&mut self, caller: &String) -> (r: Result<(), TicketError>)
        ensures
            old(self).owned_by(caller@) ==> r is Ok && final(self).owner is None,
            !old(self).owned_by(caller@) ==> r == Err::<(), TicketError>(TicketError::Unauthorized)
                && final(self).owner == old(self).owner,
    {
        self.guard(caller)?;
        self.owner = None;
        Ok(())
    }
}

/// Once renounced, ownership is gone for every caller.
pub proof fn renounced_owner_is_nobody(a: AccessControl, who: Seq<char>)
    requires
        a.owner is None,
    ensures
        !a.owned_by(who),
{
}

} // verus!
