//! The ownership capability: exactly one owner at any time, transferable and
//! renounceable; renouncing sets the owner to the null sentinel.

use vstd::prelude::*;
use crate::address::Address;
use crate::address::zero_address;
use crate::errors::Error;

verus! {

/// Holds the current owner of the contract.
#[derive(Debug)]
pub struct Ownable {
    pub owner: Address,
}

impl Ownable {
    pub open spec fn wf(self) -> bool {
        self.owner.wf()
    }

    /// Establishes the initial owner; the null sentinel is rejected.
    pub fn constructor(initial_owner: Address) -> (r: Result<Ownable, Error>)
        requires
            initial_owner.wf(),
        ensures
            r is Ok <==> initial_owner@ != zero_address(),
            r matches Ok(o) ==> o.wf() && o.owner@ == initial_owner@,
            r matches Err(e) ==> e matches Error::InvalidOwner(a) && a@ == zero_address(),
    {
        if initial_owner.is_zero() {
            Err(Error::InvalidOwner(Address::zero()))
        } else {
            Ok(Ownable { owner: initial_owner })
        }
    }

    /// The current owner.
    pub fn owner(&self) -> (r: Address)
        requires
            self.wf(),
        ensures
            r.wf(),
            r@ == self.owner@,
    {
        self.owner.dup()
    }

    /// Succeeds exactly when `caller` is the current owner.
    pub fn only_owner(&self, caller: &Address) -> (r: Result<(), Error>)
        requires
            self.wf(),
            caller.wf(),
        ensures
            r is Ok <==> caller@ == self.owner@,
            r matches Err(e) ==> e matches Error::UnauthorizedAccount(a) && a@ == caller@,
    {
        if caller.eq_addr(&self.owner) {
            Ok(())
        } else {
            Err(Error::UnauthorizedAccount(caller.dup()))
        }
    }

    /// Hands ownership to `new_owner`. Only the current owner may call this,
    /// and the null sentinel is not an allowed new owner; on failure nothing
    /// changes.
    pub fn transfer_ownership(&mut self, caller: &Address, new_owner: &Address) -> (r: Result<
        (),
        Error,
    >)
        requires
            old(self).wf(),
            caller.wf(),
            new_owner.wf(),
        ensures
            final(self).wf(),
            r is Ok <==> (caller@ == old(self).owner@ && new_owner@ != zero_address()),
            r is Ok ==> final(self).owner@ == new_owner@,
            r is Err ==> *final(self) == *old(self),
            caller@ != old(self).owner@ ==> (r matches Err(e) && e matches
                Error::UnauthorizedAccount(a) && a@ == caller@),
            caller@ == old(self).owner@ && new_owner@ == zero_address() ==> (r matches Err(e)
                && e matches Error::InvalidOwner(a) && a@ == zero_address()),
    {
        if !caller.eq_addr(&self.owner) {
            return Err(Error::UnauthorizedAccount(caller.dup()));
        }
        if new_owner.is_zero() {
            return Err(Error::InvalidOwner(Address::zero()));
        }
        self.owner = new_owner.dup();
        Ok(())
    }

    /// Gives ownership up: sets the owner to the null sentinel. Only the
    /// current owner may call this; on failure nothing changes.
    pub fn renounce_ownership(&mut self, caller: &Address) -> (r: Result<(), Error>)
        requires
            old(self).wf(),
            caller.wf(),
        ensures
            final(self).wf(),
            r is Ok <==> caller@ == old(self).owner@,
            r is Ok ==> final(self).owner@ == zero_address(),
            r is Err ==> *final(self) == *old(self),
            r matches Err(e) ==> e matches Error::UnauthorizedAccount(a) && a@ == caller@,
    {
        if !caller.eq_addr(&self.owner) {
            return Err(Error::UnauthorizedAccount(caller.dup()));
        }
        self.owner = Address::zero();
        Ok(())
    }
}

} // verus!
