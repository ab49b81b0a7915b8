//! The state-holding distribution ledger: a labeled value with per-caller
//! usage counters, owner-gated withdrawal, and single and batched transfers
//! of native currency and of third-party token balances.
//!
//! Every operation is one atomic state transition. The host context (caller,
//! attached value, current balance) comes in as arguments; the transfers and
//! calls to perform, and the events to emit, go out as values. An operation
//! that fails changes nothing.

use vstd::prelude::*;
use crate::abi::encode_transfer_from;
use crate::abi::transfer_from_payload;
use crate::address::Address;
use crate::address::zero_address;
use crate::errors::Error;
use crate::events::BatchERC20TokenSent;
use crate::events::BatchNativeTokenSent;
use crate::events::ERC20TokenSent;
use crate::events::GreetingChange;
use crate::events::NativeTokenSent;
use crate::events::NativeTransfer;
use crate::events::TokenCall;
use crate::ownable::Ownable;
use crate::tally::Tally;
use crate::tally::m_add;
use crate::tally::m_lookup;
use crate::u256::U256;
use crate::u256::u256_bound;

verus! {

/// The ledger state as plain mathematical values.
#[verifier::ext_equal]
pub ghost struct LedgerModel {
    pub greeting: Seq<char>,
    pub premium: bool,
    pub greet_total: nat,
    pub greet_counts: Seq<(Seq<u8>, nat)>,
    pub native_total: nat,
    pub native_counts: Seq<(Seq<u8>, nat)>,
    pub erc20_total: nat,
    pub erc20_counts: Seq<(Seq<u8>, nat)>,
    pub owner: Seq<u8>,
}

/// What one label change does to the state: stores the label, counts the
/// change globally and for the caller, and sets the premium flag exactly
/// when the call attached a nonzero value.
pub open spec fn spec_set_greeting(
    m: LedgerModel,
    caller: Seq<u8>,
    text: Seq<char>,
    value: nat,
) -> LedgerModel {
    LedgerModel {
        greeting: text,
        premium: value > 0,
        greet_total: m.greet_total + 1,
        greet_counts: m_add(m.greet_counts, caller, 1),
        ..m
    }
}

/// What routing `amount` of native currency out does to the running totals.
pub open spec fn spec_send_native(m: LedgerModel, caller: Seq<u8>, amount: nat) -> LedgerModel {
    LedgerModel {
        native_total: m.native_total + amount,
        native_counts: m_add(m.native_counts, caller, amount),
        ..m
    }
}

/// What routing `amount` of token balance out does to the running totals.
pub open spec fn spec_send_erc20(m: LedgerModel, caller: Seq<u8>, amount: nat) -> LedgerModel {
    LedgerModel {
        erc20_total: m.erc20_total + amount,
        erc20_counts: m_add(m.erc20_counts, caller, amount),
        ..m
    }
}

/// One recorded label change: who called, the new label, the attached value.
pub ghost struct GreetingCall {
    pub caller: Seq<u8>,
    pub text: Seq<char>,
    pub value: nat,
}

/// The state after a sequence of label changes, applied in order.
pub open spec fn apply_greetings(m: LedgerModel, calls: Seq<GreetingCall>) -> LedgerModel
    decreases calls.len(),
{
    if calls.len() == 0 {
        m
    } else {
        spec_set_greeting(
            apply_greetings(m, calls.drop_last()),
            calls.last().caller,
            calls.last().text,
            calls.last().value,
        )
    }
}

/// How many of the calls `who` made.
pub open spec fn count_calls_by(calls: Seq<GreetingCall>, who: Seq<u8>) -> nat
    decreases calls.len(),
{
    if calls.len() == 0 {
        0
    } else {
        count_calls_by(calls.drop_last(), who) + if calls.last().caller == who {
            1nat
        } else {
            0nat
        }
    }
}

/// Law: after any sequence of label changes the global counter has grown by
/// their number, each caller's counter by the number of calls that caller
/// made, the stored label is the last one set, and the premium flag says
/// exactly whether the last change attached a nonzero value.
pub proof fn lemma_greeting_sequence(m: LedgerModel, calls: Seq<GreetingCall>, who: Seq<u8>)
    ensures
        apply_greetings(m, calls).greet_total == m.greet_total + calls.len(),
        m_lookup(apply_greetings(m, calls).greet_counts, who) == m_lookup(m.greet_counts, who)
            + count_calls_by(calls, who),
        calls.len() > 0 ==> apply_greetings(m, calls).greeting == calls.last().text,
        calls.len() > 0 ==> apply_greetings(m, calls).premium == (calls.last().value > 0),
    decreases calls.len(),
{
    if calls.len() > 0 {
        lemma_greeting_sequence(m, calls.drop_last(), who);
        crate::tally::lemma_m_add_lookup(
            apply_greetings(m, calls.drop_last()).greet_counts,
            calls.last().caller,
            1,
            who,
        );
    }
}

/// The sum of a sequence of amounts.
pub open spec fn sum_amounts(s: Seq<U256>) -> nat
    decreases s.len(),
{
    if s.len() == 0 {
        0
    } else {
        sum_amounts(s.drop_last()) + s.last()@
    }
}

pub proof fn lemma_sum_amounts_take_step(s: Seq<U256>, i: int)
    requires
        0 <= i < s.len(),
    ensures
        sum_amounts(s.take(i + 1)) == sum_amounts(s.take(i)) + s[i]@,
{
    assert(s.take(i + 1).drop_last() =~= s.take(i));
    assert(s.take(i + 1).last() == s[i]);
}

pub proof fn lemma_sum_amounts_take_le(s: Seq<U256>, j: int)
    requires
        0 <= j <= s.len(),
    ensures
        sum_amounts(s.take(j)) <= sum_amounts(s),
    decreases s.len(),
{
    if j == s.len() {
        assert(s.take(j) =~= s);
    } else {
        assert(s.drop_last().take(j) =~= s.take(j));
        lemma_sum_amounts_take_le(s.drop_last(), j);
    }
}

/// The distribution ledger.
#[derive(Debug)]
pub struct DistributionLedger {
    pub ownable: Ownable,
    pub greeting: String,
    pub premium: bool,
    pub greet_tally: Tally,
    pub native_tally: Tally,
    pub erc20_tally: Tally,
}

impl DistributionLedger {
    pub open spec fn wf(self) -> bool {
        &&& self.ownable.wf()
        &&& self.greet_tally.wf()
        &&& self.native_tally.wf()
        &&& self.erc20_tally.wf()
    }

    pub open spec fn model(self) -> LedgerModel {
        LedgerModel {
            greeting: self.greeting@,
            premium: self.premium,
            greet_total: self.greet_tally.total_val(),
            greet_counts: self.greet_tally.model(),
            native_total: self.native_tally.total_val(),
            native_counts: self.native_tally.model(),
            erc20_total: self.erc20_tally.total_val(),
            erc20_counts: self.erc20_tally.model(),
            owner: self.ownable.owner@,
        }
    }

    /// Sets up the ledger: the given owner, the initial label, no premium,
    /// all counters zero. The null sentinel is rejected as owner.
    pub fn constructor(initial_owner: Address) -> (r: Result<DistributionLedger, Error>)
        requires
            initial_owner.wf(),
        ensures
            r is Ok <==> initial_owner@ != zero_address(),
            r matches Err(e) ==> e matches Error::InvalidOwner(a) && a@ == zero_address(),
            r matches Ok(l) ==> l.wf() && l.model() == (LedgerModel {
                greeting: "Building Unstoppable Apps!!!"@,
                premium: false,
                greet_total: 0,
                greet_counts: Seq::<(Seq<u8>, nat)>::empty(),
                native_total: 0,
                native_counts: Seq::<(Seq<u8>, nat)>::empty(),
                erc20_total: 0,
                erc20_counts: Seq::<(Seq<u8>, nat)>::empty(),
                owner: initial_owner@,
            }),
    {
        let ownable = match Ownable::constructor(initial_owner) {
            Ok(o) => o,
            Err(e) => {
                return Err(e);
            },
        };
        let l = DistributionLedger {
            ownable,
            greeting: String::from_str("Building Unstoppable Apps!!!"),
            premium: false,
            greet_tally: Tally::new(),
            native_tally: Tally::new(),
            erc20_tally: Tally::new(),
        };
        proof {
            assert(l.model() =~= (LedgerModel {
                greeting: "Building Unstoppable Apps!!!"@,
                premium: false,
                greet_total: 0,
                greet_counts: Seq::<(Seq<u8>, nat)>::empty(),
                native_total: 0,
                native_counts: Seq::<(Seq<u8>, nat)>::empty(),
                erc20_total: 0,
                erc20_counts: Seq::<(Seq<u8>, nat)>::empty(),
                owner: l.ownable.owner@,
            }));
        }
        Ok(l)
    }

    /// The current label.
    pub fn greeting(&self) -> (r: String)
        ensures
            r@ == self.model().greeting,
    {
        self.greeting.clone()
    }

    /// Whether the last label change attached a nonzero value.
    pub fn premium(&self) -> (r: bool)
        ensures
            r == self.model().premium,
    {
        self.premium
    }

    /// How many label changes happened in all.
    pub fn total_counter(&self) -> (r: U256)
        requires
            self.wf(),
        ensures
            r.wf(),
            r@ == self.model().greet_total,
    {
        self.greet_tally.total.dup()
    }

    /// How many label changes `user` made.
    pub fn user_greeting_counter(&self, user: &Address) -> (r: U256)
        requires
            self.wf(),
            user.wf(),
        ensures
            r.wf(),
            r@ == m_lookup(self.model().greet_counts, user@),
    {
        self.greet_tally.get(user)
    }

    /// Stores a new label, counts the change, and flags premium exactly when
    /// the call attached a nonzero value. Returns the notification to emit.
    pub fn set_greeting(
        &mut self,
        caller: &Address,
        attached_value: &U256,
        new_greeting: String,
    ) -> (r: Result<GreetingChange, Error>)
        requires
            old(self).wf(),
            caller.wf(),
            attached_value.wf(),
        ensures
            final(self).wf(),
            r is Ok <==> old(self).model().greet_total + 1 < u256_bound(),
            r matches Err(e) ==> e matches Error::Overflow && *final(self) == *old(self),
            r is Ok ==> final(self).model() == spec_set_greeting(
                old(self).model(),
                caller@,
                new_greeting@,
                attached_value@,
            ),
            r matches Ok(ev) ==> ev.greeting_setter@ == caller@ && ev.new_greeting@
                == new_greeting@ && ev.premium == (attached_value@ > 0) && ev.value@
                == attached_value@,
    {
        let one = U256::from_u64(1);
        let event = GreetingChange {
            greeting_setter: caller.dup(),
            new_greeting: new_greeting.clone(),
            premium: !attached_value.is_zero(),
            value: attached_value.dup(),
        };
        if !self.greet_tally.add(caller, &one) {
            return Err(Error::Overflow);
        }
        self.greeting = new_greeting;
        self.premium = !event.value.is_zero();
        proof {
            assert(self.model() =~= spec_set_greeting(
                old(self).model(),
                caller@,
                self.greeting@,
                attached_value@,
            ));
        }
        Ok(event)
    }

    /// The current owner.
    pub fn owner(&self) -> (r: Address)
        requires
            self.wf(),
        ensures
            r.wf(),
            r@ == self.model().owner,
    {
        self.ownable.owner()
    }

    /// Hands ownership to `new_owner`; owner-gated, and the null sentinel is
    /// not an allowed new owner.
    pub fn transfer_ownership(&mut self, caller: &Address, new_owner: &Address) -> (r: Result<
        (),
        Error,
    >)
        requires
            old(self).wf(),
            caller.wf(),
            new_owner.wf(),
        ensures
            final(self).wf(),
            r is Ok <==> (caller@ == old(self).model().owner && new_owner@ != zero_address()),
            r is Ok ==> final(self).model() == (LedgerModel {
                owner: new_owner@,
                ..old(self).model()
            }),
            r is Err ==> *final(self) == *old(self),
            caller@ != old(self).model().owner ==> (r matches Err(e) && e matches
                Error::UnauthorizedAccount(a) && a@ == caller@),
            caller@ == old(self).model().owner && new_owner@ == zero_address() ==> (r matches Err(
                e,
            ) && e matches Error::InvalidOwner(a) && a@ == zero_address()),
    {
        let r = self.ownable.transfer_ownership(caller, new_owner);
        proof {
            if r is Ok {
                assert(self.model() =~= (LedgerModel {
                    owner: new_owner@,
                    ..old(self).model()
                }));
            }
        }
        r
    }

    /// Gives ownership up to the null sentinel; owner-gated.
    pub fn renounce_ownership(&mut self, caller: &Address) -> (r: Result<(), Error>)
        requires
            old(self).wf(),
            caller.wf(),
        ensures
            final(self).wf(),
            r is Ok <==> caller@ == old(self).model().owner,
            r is Ok ==> final(self).model() == (LedgerModel {
                owner: zero_address(),
                ..old(self).model()
            }),
            r is Err ==> *final(self) == *old(self),
            r matches Err(e) ==> e matches Error::UnauthorizedAccount(a) && a@ == caller@,
    {
        let r = self.ownable.renounce_ownership(caller);
        proof {
            if r is Ok {
                assert(self.model() =~= (LedgerModel {
                    owner: zero_address(),
                    ..old(self).model()
                }));
            }
        }
        r
    }

    /// Owner-gated withdrawal of the whole current balance: asks the host to
    /// transfer `balance` to the owner, or nothing where the balance is
    /// zero. The ledger state itself does not change.
    pub fn withdraw(&self, caller: &Address, balance: &U256) -> (r: Result<
        Option<NativeTransfer>,
        Error,
    >)
        requires
            self.wf(),
            caller.wf(),
            balance.wf(),
        ensures
            r is Ok <==> caller@ == self.model().owner,
            r matches Err(e) ==> e matches Error::UnauthorizedAccount(a) && a@ == caller@,
            r matches Ok(t) ==> (t is Some <==> balance@ > 0),
            r matches Ok(Some(tr)) ==> tr.to@ == self.model().owner && tr.amount@ == balance@
                && tr.to.wf() && tr.amount.wf(),
    {
        match self.ownable.only_owner(caller) {
            Ok(()) => {},
            Err(e) => {
                return Err(e);
            },
        }
        if balance.is_zero() {
            Ok(None)
        } else {
            Ok(Some(NativeTransfer { to: self.ownable.owner(), amount: balance.dup() }))
        }
    }

    /// How much native currency was routed out in all.
    pub fn get_total_native_sent(&self) -> (r: U256)
        requires
            self.wf(),
        ensures
            r.wf(),
            r@ == self.model().native_total,
    {
        self.native_tally.total.dup()
    }

    /// How much native currency `user` routed out.
    pub fn get_user_native_sent(&self, user: &Address) -> (r: U256)
        requires
            self.wf(),
            user.wf(),
        ensures
            r.wf(),
            r@ == m_lookup(self.model().native_counts, user@),
    {
        self.native_tally.get(user)
    }

    /// How much token balance was routed out in all.
    pub fn get_total_erc20_sent(&self) -> (r: U256)
        requires
            self.wf(),
        ensures
            r.wf(),
            r@ == self.model().erc20_total,
    {
        self.erc20_tally.total.dup()
    }

    /// How much token balance `user` routed out.
    pub fn get_user_erc20_sent(&self, user: &Address) -> (r: U256)
        requires
            self.wf(),
            user.wf(),
        ensures
            r.wf(),
            r@ == m_lookup(self.model().erc20_counts, user@),
    {
        self.erc20_tally.get(user)
    }

    /// Routes `amount` of native currency to one recipient: returns the
    /// transfer to perform and the notification to emit, and counts the
    /// amount for the caller.
    pub fn send_native_individual(
        &mut self,
        caller: &Address,
        recipient: &Address,
        amount: &U256,
    ) -> (r: Result<(NativeTransfer, NativeTokenSent), Error>)
        requires
            old(self).wf(),
            caller.wf(),
            recipient.wf(),
            amount.wf(),
        ensures
            final(self).wf(),
            r is Ok <==> old(self).model().native_total + amount@ < u256_bound(),
            r matches Err(e) ==> e matches Error::Overflow && *final(self) == *old(self),
            r is Ok ==> final(self).model() == spec_send_native(
                old(self).model(),
                caller@,
                amount@,
            ),
            r matches Ok((t, ev)) ==> t.to@ == recipient@ && t.amount@ == amount@ && t.to.wf()
                && t.amount.wf() && ev.from@ == caller@ && ev.to@ == recipient@ && ev.amount@
                == amount@,
    {
        if !self.native_tally.add(caller, amount) {
            return Err(Error::Overflow);
        }
        proof {
            assert(self.model() =~= spec_send_native(old(self).model(), caller@, amount@));
        }
        let transfer = NativeTransfer { to: recipient.dup(), amount: amount.dup() };
        let event = NativeTokenSent { from: caller.dup(), to: recipient.dup(), amount: amount.dup() };
        Ok((transfer, event))
    }

    /// Routes native currency to many recipients in one batch, pairing
    /// `recipients[i]` with `amounts[i]`. Sequences of unequal length are
    /// rejected whole. Returns the transfers to perform in order and one
    /// aggregate notification; the running totals grow once, by the batch
    /// sum.
    pub fn send_native_batch(
        &mut self,
        caller: &Address,
        recipients: &Vec<Address>,
        amounts: &Vec<U256>,
    ) -> (r: Result<(Vec<NativeTransfer>, BatchNativeTokenSent), Error>)
        requires
            old(self).wf(),
            caller.wf(),
            forall|i: int| 0 <= i < recipients@.len() ==> (#[trigger] recipients@[i]).wf(),
            forall|i: int| 0 <= i < amounts@.len() ==> (#[trigger] amounts@[i]).wf(),
        ensures
            final(self).wf(),
            r is Ok <==> (recipients@.len() == amounts@.len() && old(self).model().native_total
                + sum_amounts(amounts@) < u256_bound()),
            r is Err ==> *final(self) == *old(self),
            (r matches Err(e) && e matches Error::BoundsError) <==> recipients@.len()
                != amounts@.len(),
            r is Ok ==> final(self).model() == spec_send_native(
                old(self).model(),
                caller@,
                sum_amounts(amounts@),
            ),
            r matches Ok((ts, ev)) ==> ts@.len() == recipients@.len() && (forall|i: int|
                0 <= i < ts@.len() ==> (#[trigger] ts@[i]).to@ == recipients@[i]@ && ts@[i].amount@
                    == amounts@[i]@) && ev.from@ == caller@ && ev.total_amount@ == sum_amounts(
                amounts@,
            ) && ev.recipient_count@ == recipients@.len(),
    {
        if recipients.len() != amounts.len() {
            return Err(Error::BoundsError);
        }
        let n = recipients.len();
        let mut transfers: Vec<NativeTransfer> = Vec::new();
        let mut batch_total = U256::zero();
        let mut i: usize = 0;
        while i < n
            invariant
                self.wf(),
                *self == *old(self),
                caller.wf(),
                forall|j: int| 0 <= j < recipients@.len() ==> (#[trigger] recipients@[j]).wf(),
                forall|j: int| 0 <= j < amounts@.len() ==> (#[trigger] amounts@[j]).wf(),
                n == recipients@.len(),
                n == amounts@.len(),
                i <= n,
                batch_total.wf(),
                batch_total@ == sum_amounts(amounts@.take(i as int)),
                transfers@.len() == i,
                forall|j: int|
                    0 <= j < i ==> (#[trigger] transfers@[j]).to@ == recipients@[j]@
                        && transfers@[j].amount@ == amounts@[j]@ && transfers@[j].to.wf()
                        && transfers@[j].amount.wf(),
            decreases n - i,
        {
            proof {
                lemma_sum_amounts_take_step(amounts@, i as int);
            }
            let amt = &amounts[i];
            batch_total = match batch_total.checked_add(amt) {
                Some(v) => v,
                None => {
                    proof {
                        lemma_sum_amounts_take_le(amounts@, i as int + 1);
                    }
                    return Err(Error::Overflow);
                },
            };
            let rec = &recipients[i];
            transfers.push(NativeTransfer { to: rec.dup(), amount: amt.dup() });
            i = i + 1;
        }
        proof {
            assert(amounts@.take(n as int) =~= amounts@);
        }
        if !self.native_tally.add(caller, &batch_total) {
            return Err(Error::Overflow);
        }
        proof {
            assert(self.model() =~= spec_send_native(
                old(self).model(),
                caller@,
                sum_amounts(amounts@),
            ));
        }
        let event = BatchNativeTokenSent {
            from: caller.dup(),
            total_amount: batch_total,
            recipient_count: U256::from_u64(n as u64),
        };
        Ok((transfers, event))
    }

    /// Routes `amount` of a third-party token from the caller to one
    /// recipient: returns the transfer-on-behalf call to dispatch and the
    /// notification to emit, and counts the amount for the caller.
    pub fn send_erc20_individual(
        &mut self,
        caller: &Address,
        token: &Address,
        recipient: &Address,
        amount: &U256,
    ) -> (r: Result<(TokenCall, ERC20TokenSent), Error>)
        requires
            old(self).wf(),
            caller.wf(),
            token.wf(),
            recipient.wf(),
            amount.wf(),
        ensures
            final(self).wf(),
            r is Ok <==> old(self).model().erc20_total + amount@ < u256_bound(),
            r matches Err(e) ==> e matches Error::Overflow && *final(self) == *old(self),
            r is Ok ==> final(self).model() == spec_send_erc20(
                old(self).model(),
                caller@,
                amount@,
            ),
            r matches Ok((c, ev)) ==> c.token@ == token@ && c.payload@ == transfer_from_payload(
                caller@,
                recipient@,
                amount@,
            ) && ev.token@ == token@ && ev.from@ == caller@ && ev.to@ == recipient@ && ev.amount@
                == amount@,
    {
        if !self.erc20_tally.add(caller, amount) {
            return Err(Error::Overflow);
        }
        proof {
            assert(self.model() =~= spec_send_erc20(old(self).model(), caller@, amount@));
        }
        let call = TokenCall { token: token.dup(), payload: encode_transfer_from(
            caller,
            recipient,
            amount,
        ) };
        let event = ERC20TokenSent {
            token: token.dup(),
            from: caller.dup(),
            to: recipient.dup(),
            amount: amount.dup(),
        };
        Ok((call, event))
    }

    /// Routes a third-party token to many recipients in one batch, pairing
    /// `recipients[i]` with `amounts[i]`. Sequences of unequal length are
    /// rejected whole. Returns the transfer-on-behalf calls to dispatch in
    /// order and one aggregate notification; the running totals grow once,
    /// by the batch sum.
    pub fn send_erc20_batch(
        &mut self,
        caller: &Address,
        token: &Address,
        recipients: &Vec<Address>,
        amounts: &Vec<U256>,
    ) -> (r: Result<(Vec<TokenCall>, BatchERC20TokenSent), Error>)
        requires
            old(self).wf(),
            caller.wf(),
            token.wf(),
            forall|i: int| 0 <= i < recipients@.len() ==> (#[trigger] recipients@[i]).wf(),
            forall|i: int| 0 <= i < amounts@.len() ==> (#[trigger] amounts@[i]).wf(),
        ensures
            final(self).wf(),
            r is Ok <==> (recipients@.len() == amounts@.len() && old(self).model().erc20_total
                + sum_amounts(amounts@) < u256_bound()),
            r is Err ==> *final(self) == *old(self),
            (r matches Err(e) && e matches Error::BoundsError) <==> recipients@.len()
                != amounts@.len(),
            r is Ok ==> final(self).model() == spec_send_erc20(
                old(self).model(),
                caller@,
                sum_amounts(amounts@),
            ),
            r matches Ok((cs, ev)) ==> cs@.len() == recipients@.len() && (forall|i: int|
                0 <= i < cs@.len() ==> (#[trigger] cs@[i]).token@ == token@ && cs@[i].payload@
                    == transfer_from_payload(caller@, recipients@[i]@, amounts@[i]@)) && ev.token@
                == token@ && ev.from@ == caller@ && ev.total_amount@ == sum_amounts(amounts@)
                && ev.recipient_count@ == recipients@.len(),
    {
        if recipients.len() != amounts.len() {
            return Err(Error::BoundsError);
        }
        let n = recipients.len();
        let mut calls: Vec<TokenCall> = Vec::new();
        let mut batch_total = U256::zero();
        let mut i: usize = 0;
        while i < n
            invariant
                self.wf(),
                *self == *old(self),
                caller.wf(),
                token.wf(),
                forall|j: int| 0 <= j < recipients@.len() ==> (#[trigger] recipients@[j]).wf(),
                forall|j: int| 0 <= j < amounts@.len() ==> (#[trigger] amounts@[j]).wf(),
                n == recipients@.len(),
                n == amounts@.len(),
                i <= n,
                batch_total.wf(),
                batch_total@ == sum_amounts(amounts@.take(i as int)),
                calls@.len() == i,
                forall|j: int|
                    0 <= j < i ==> (#[trigger] calls@[j]).token@ == token@ && calls@[j].payload@
                        == transfer_from_payload(caller@, recipients@[j]@, amounts@[j]@),
            decreases n - i,
        {
            proof {
                lemma_sum_amounts_take_step(amounts@, i as int);
            }
            let amt = &amounts[i];
            batch_total = match batch_total.checked_add(amt) {
                Some(v) => v,
                None => {
                    proof {
                        lemma_sum_amounts_take_le(amounts@, i as int + 1);
                    }
                    return Err(Error::Overflow);
                },
            };
            let rec = &recipients[i];
            calls.push(TokenCall { token: token.dup(), payload: encode_transfer_from(
                caller,
                rec,
                amt,
            ) });
            i = i + 1;
        }
        proof {
            assert(amounts@.take(n as int) =~= amounts@);
        }
        if !self.erc20_tally.add(caller, &batch_total) {
            return Err(Error::Overflow);
        }
        proof {
            assert(self.model() =~= spec_send_erc20(
                old(self).model(),
                caller@,
                sum_amounts(amounts@),
            ));
        }
        let event = BatchERC20TokenSent {
            token: token.dup(),
            from: caller.dup(),
            total_amount: batch_total,
            recipient_count: U256::from_u64(n as u64),
        };
        Ok((calls, event))
    }
}

} // verus!
