//! What holds of a record whatever is done to it.
//!
//! Each operation of `AccountDeposit` ensures that it acts as the spec
//! function of the same name on `AccountDepositView` says. The proof
//! functions here state what follows for a record over its whole life.

use crate::account_deposit::AccountDepositView;
use crate::errors::LedgerError;
use near_sdk::Balance;
use vstd::prelude::*;

verus! {

/// A call that can make a record larger: registering a token or adding to a balance.
pub enum Growth {
    Register { token: Seq<char> },
    Add { token: Seq<char>, amount: Balance },
}

impl Growth {
    /// What the call answers on `record`.
    pub open spec fn outcome(self, record: AccountDepositView) -> Result<
        AccountDepositView,
        LedgerError,
    > {
        match self {
            Growth::Register { token } => record.spec_register(token),
            Growth::Add { token, amount } => record.spec_add(token, amount),
        }
    }

    /// The record after the call: the new record where the call succeeds,
    /// the same record where it is refused.
    pub open spec fn apply(self, record: AccountDepositView) -> AccountDepositView {
        match self.outcome(record) {
            Ok(after) => after,
            Err(_) => record,
        }
    }
}

/// The record after the calls of `steps`, made in turn on `record`.
pub open spec fn run(record: AccountDepositView, steps: Seq<Growth>) -> AccountDepositView
    decreases steps.len(),
{
    if steps.len() == 0 {
        record
    } else {
        steps.last().apply(run(record, steps.drop_last()))
    }
}

/// A registration that succeeds leaves a record whose native amount covers
/// its storage, and succeeds only where it does.
pub proof fn lemma_register_solvent(record: AccountDepositView, token: Seq<char>)
    ensures
        record.spec_register(token) matches Ok(after) ==> after.solvent(),
        record.spec_register(token) matches Err(error) ==> error
            == LedgerError::InsufficientStorage,
{
}

/// A credit that succeeds leaves a record whose native amount covers its
/// storage, and succeeds only where it does.
pub proof fn lemma_add_solvent(record: AccountDepositView, token: Seq<char>, amount: Balance)
    ensures
        record.spec_add(token, amount) matches Ok(after) ==> after.solvent(),
        record.spec_add(token, amount) matches Err(error) ==> error
            == LedgerError::InsufficientStorage,
{
}

/// In any run of registrations and credits, the record is solvent after
/// every call that succeeds, and a call that is refused leaves the record
/// as it was before that call.
pub proof fn lemma_solvent_after_each_call(
    record: AccountDepositView,
    steps: Seq<Growth>,
    i: int,
)
    requires
        0 <= i < steps.len(),
    ensures
        steps[i].outcome(run(record, steps.take(i))) is Ok ==> run(
            record,
            steps.take(i + 1),
        ).solvent(),
        steps[i].outcome(run(record, steps.take(i))) is Err ==> run(record, steps.take(i + 1))
            == run(record, steps.take(i)),
{
    let upto = steps.take(i + 1);
    assert(upto.last() == steps[i]);
    assert(upto.drop_last() =~= steps.take(i));
}

/// A record that is solvent stays solvent through any run of registrations
/// and credits, whichever of them succeed.
pub proof fn lemma_run_keeps_solvent(record: AccountDepositView, steps: Seq<Growth>)
    requires
        record.solvent(),
    ensures
        run(record, steps).solvent(),
    decreases steps.len(),
{
    if steps.len() > 0 {
        lemma_run_keeps_solvent(record, steps.drop_last());
    }
}

/// No debit brings a balance below zero: one that asks for more than the
/// balance is refused, and one that succeeds takes exactly what was asked
/// for from a balance that held at least as much.
pub proof fn lemma_sub_never_overdraws(record: AccountDepositView, token: Seq<char>, amount: Balance)
    ensures
        0 <= record.balance(token),
        amount > record.balance(token) ==> record.spec_sub(token, amount) is Err,
        record.spec_sub(token, amount) matches Ok(after) ==> {
            &&& amount <= record.balance(token)
            &&& after.balance(token) == record.balance(token) - amount
            &&& after.tokens.contains_key(token)
        },
{
}

/// Unregistering succeeds exactly where the balance of the token is zero,
/// and then the token is no longer registered.
pub proof fn lemma_unregister_iff_zero(record: AccountDepositView, token: Seq<char>)
    ensures
        record.spec_unregister(token) is Ok <==> record.balance(token) == 0,
        record.spec_unregister(token) matches Ok(after) ==> !after.tokens.contains_key(token),
        record.spec_unregister(token) matches Err(error) ==> error
            == LedgerError::NonZeroBalanceOnUnregister,
{
}

/// Registering a token a second time changes nothing: the second call
/// succeeds, leaves the record of the first, and the balance of the token is
/// what it was before the first call, zero where the token was new.
pub proof fn lemma_register_twice(record: AccountDepositView, token: Seq<char>)
    ensures
        record.spec_register(token) matches Ok(once) ==> {
            &&& once.spec_register(token) == Ok::<AccountDepositView, LedgerError>(once)
            &&& once.tokens.contains_key(token)
            &&& once.tokens[token] == record.balance(token)
        },
{
}

/// Unregistering never makes a record more expensive to store.
pub proof fn lemma_unregister_keeps_solvent(record: AccountDepositView, token: Seq<char>)
    requires
        record.tokens.dom().finite(),
        record.solvent(),
    ensures
        record.spec_unregister(token) matches Ok(after) ==> after.solvent(),
{
    if record.tokens.contains_key(token) {
        assert(record.tokens.remove(token).dom() =~= record.tokens.dom().remove(token));
    } else {
        assert(record.tokens.remove(token) =~= record.tokens);
    }
}

} // verus!
