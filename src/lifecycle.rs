//! Laws of the payment lifecycle, proved over the handlers' outcomes.

use vstd::prelude::*;
use crate::address::payment_address;
use crate::codec::{encodable, is_record, lemma_record_bytes_injective, record_bytes, text_fits};
use crate::ledger::{balance_change, occupied, AccountView, OpView};
use crate::processor::{
    cancel_outcome, checked_record, complete_outcome, initialize_outcome, new_record, record_of,
};
use crate::state::{PaymentError, PaymentStatus, PaymentView};

verus! {

/// A record's persisted form reads back as that record.
pub proof fn lemma_record_reads_back(p: PaymentView)
    requires
        encodable(p),
    ensures
        is_record(record_bytes(p)),
        record_of(record_bytes(p)) == p,
{
    assert(encodable(p) && record_bytes(p) == record_bytes(p));
    let q = record_of(record_bytes(p));
    lemma_record_bytes_injective(p, q);
}

/// Initialize by a signing payer, with a positive amount, into the unused
/// account derived from payer and payment id, creates that account and
/// writes exactly one record into it: the given terms, pending, stamped with
/// the current time.
pub proof fn lemma_initialize_creates_pending_record(
    program_id: Seq<u8>,
    accounts: Seq<AccountView>,
    amount: u64,
    payment_id: Seq<char>,
    now: i64,
)
    requires
        accounts.len() >= 4,
        accounts[0].is_signer,
        accounts[0].key.len() == 32,
        accounts[2].key.len() == 32,
        amount > 0,
        text_fits(payment_id),
        payment_address(program_id, accounts[0].key, payment_id) matches Some(found) && found.0
            == accounts[1].key,
        !occupied(accounts[1]),
    ensures
        initialize_outcome(program_id, accounts, amount, payment_id, now) matches Ok(ops) && {
            &&& ops.len() == 2
            &&& ops[0] is CreateAccount
            &&& ops[0]->CreateAccount_address == accounts[1].key
            &&& ops[1] is WriteData
            &&& ops[1]->WriteData_address == accounts[1].key
            &&& is_record(ops[1]->WriteData_data)
            &&& record_of(ops[1]->WriteData_data) == new_record(
                accounts[0].key,
                accounts[2].key,
                amount,
                payment_id,
                now,
            )
            &&& record_of(ops[1]->WriteData_data).status == PaymentStatus::Pending
            &&& record_of(ops[1]->WriteData_data).timestamp == now
        },
{
    lemma_record_reads_back(new_record(accounts[0].key, accounts[2].key, amount, payment_id, now));
}

/// Two Initialize calls for the same payer and payment id target the same
/// account; once the first has written its record there, the second fails,
/// and where it passes the earlier checks it fails because the account is
/// occupied.
pub proof fn lemma_initialize_unique(
    program_id: Seq<u8>,
    first: Seq<AccountView>,
    amount: u64,
    payment_id: Seq<char>,
    now: i64,
    second: Seq<AccountView>,
    second_amount: u64,
    second_now: i64,
)
    requires
        initialize_outcome(program_id, first, amount, payment_id, now) is Ok,
        second.len() >= 4,
        second[0].key == first[0].key,
    ensures
        initialize_outcome(program_id, second, second_amount, payment_id, second_now) matches Ok(
            ops,
        ) ==> ops[1]->WriteData_address == initialize_outcome(
            program_id,
            first,
            amount,
            payment_id,
            now,
        )->Ok_0[1]->WriteData_address,
        second[1].data == initialize_outcome(
            program_id,
            first,
            amount,
            payment_id,
            now,
        )->Ok_0[1]->WriteData_data ==> {
            &&& initialize_outcome(program_id, second, second_amount, payment_id, second_now) is Err
            &&& (second[0].is_signer && second_amount > 0 && second[1].key == first[1].key)
                ==> initialize_outcome(program_id, second, second_amount, payment_id, second_now)
                == Err::<Seq<OpView>, PaymentError>(PaymentError::SlotOccupied)
        },
{
}

/// Complete on a pending record whose payer holds at least its amount moves
/// exactly that amount from payer to recipient, and stores the record as
/// completed at the current time, which is no earlier than its creation
/// where the clock does not run backwards.
pub proof fn lemma_complete_moves_amount(program_id: Seq<u8>, accounts: Seq<AccountView>, now: i64)
    requires
        accounts.len() >= 4,
        checked_record(program_id, accounts[0], accounts[1]) matches Ok(p) && {
            &&& p.recipient == accounts[2].key
            &&& p.status == PaymentStatus::Pending
            &&& accounts[0].lamports >= p.amount
        },
    ensures
        ({
            let p = record_of(accounts[1].data);
            complete_outcome(program_id, accounts, now) matches Ok(ops) && {
                &&& accounts[0].key != accounts[2].key ==> balance_change(ops, accounts[0].key)
                    == -(p.amount as int)
                &&& accounts[0].key != accounts[2].key ==> balance_change(ops, accounts[2].key)
                    == p.amount as int
                &&& forall|who: Seq<u8>|
                    who != accounts[0].key && who != accounts[2].key ==> balance_change(ops, who)
                        == 0
                &&& ops.last() is WriteData
                &&& ops.last()->WriteData_address == accounts[1].key
                &&& record_of(ops.last()->WriteData_data) == p.with_status(
                    PaymentStatus::Completed,
                    now,
                )
                &&& p.timestamp <= now ==> record_of(ops.last()->WriteData_data).timestamp
                    >= p.timestamp
            }
        }),
{
    let p = record_of(accounts[1].data);
    let ops = complete_outcome(program_id, accounts, now)->Ok_0;
    assert(is_record(accounts[1].data));
    assert(encodable(p));
    lemma_record_reads_back(p.with_status(PaymentStatus::Completed, now));
    let first = seq![ops[0]];
    assert(ops.drop_last() =~= first);
    assert(first.drop_last() =~= Seq::<OpView>::empty());
    assert forall|who: Seq<u8>|
        #[trigger] balance_change(ops, who) == (if accounts[2].key == who {
            p.amount as int
        } else {
            0
        }) - (if accounts[0].key == who {
            p.amount as int
        } else {
            0
        }) by {
        assert(balance_change(first.drop_last(), who) == 0);
        assert(first.last() == ops[0]);
        assert(balance_change(ops.drop_last(), who) == balance_change(first, who));
    }
}

/// Once Complete has stored its record, a second Complete with the same
/// accounts fails as not pending, so no funds move again.
pub proof fn lemma_complete_twice(
    program_id: Seq<u8>,
    accounts: Seq<AccountView>,
    now: i64,
    again: Seq<AccountView>,
    again_now: i64,
)
    requires
        complete_outcome(program_id, accounts, now) is Ok,
        again.len() >= 4,
        again[0].key == accounts[0].key,
        again[0].is_signer == accounts[0].is_signer,
        again[1].key == accounts[1].key,
        again[1].owner == accounts[1].owner,
        again[1].data == complete_outcome(program_id, accounts, now)->Ok_0[1]->WriteData_data,
        again[2].key == accounts[2].key,
    ensures
        complete_outcome(program_id, again, again_now) == Err::<Seq<OpView>, PaymentError>(
            PaymentError::NotPending,
        ),
{
    let p = record_of(accounts[1].data);
    assert(is_record(accounts[1].data));
    assert(encodable(p));
    lemma_record_reads_back(p.with_status(PaymentStatus::Completed, now));
}

/// Cancel on a pending record stores it as cancelled; a later Complete with
/// the same accounts fails as not pending and moves nothing.
pub proof fn lemma_cancel_then_complete(
    program_id: Seq<u8>,
    accounts: Seq<AccountView>,
    now: i64,
    again: Seq<AccountView>,
    again_now: i64,
)
    requires
        cancel_outcome(program_id, accounts, now) is Ok,
        again.len() >= 4,
        again[0].key == accounts[0].key,
        again[0].is_signer == accounts[0].is_signer,
        again[1].key == accounts[1].key,
        again[1].owner == accounts[1].owner,
        again[1].data == cancel_outcome(program_id, accounts, now)->Ok_0[0]->WriteData_data,
        again[2].key == record_of(accounts[1].data).recipient,
    ensures
        record_of(cancel_outcome(program_id, accounts, now)->Ok_0[0]->WriteData_data).status
            == PaymentStatus::Cancelled,
        complete_outcome(program_id, again, again_now) == Err::<Seq<OpView>, PaymentError>(
            PaymentError::NotPending,
        ),
{
    let p = record_of(accounts[1].data);
    assert(is_record(accounts[1].data));
    assert(encodable(p));
    lemma_record_reads_back(p.with_status(PaymentStatus::Cancelled, now));
}

/// Complete on a pending record whose payer holds less than its amount fails
/// with insufficient funds and asks for nothing, so the record stays as it
/// was.
pub proof fn lemma_complete_insufficient(program_id: Seq<u8>, accounts: Seq<AccountView>, now: i64)
    requires
        accounts.len() >= 4,
        checked_record(program_id, accounts[0], accounts[1]) matches Ok(p) && {
            &&& p.recipient == accounts[2].key
            &&& p.status == PaymentStatus::Pending
            &&& accounts[0].lamports < p.amount
        },
    ensures
        complete_outcome(program_id, accounts, now) == Err::<Seq<OpView>, PaymentError>(
            PaymentError::InsufficientFunds,
        ),
{
}

/// Complete and Cancel store the record with the same payer, recipient,
/// amount and payment id as before; only status and timestamp change.
pub proof fn lemma_terms_constant(program_id: Seq<u8>, accounts: Seq<AccountView>, now: i64)
    ensures
        complete_outcome(program_id, accounts, now) matches Ok(ops) ==> {
            let before = record_of(accounts[1].data);
            let after = record_of(ops.last()->WriteData_data);
            &&& ops.last() is WriteData
            &&& after.payer == before.payer
            &&& after.recipient == before.recipient
            &&& after.amount == before.amount
            &&& after.payment_id == before.payment_id
        },
        cancel_outcome(program_id, accounts, now) matches Ok(ops) ==> {
            let before = record_of(accounts[1].data);
            let after = record_of(ops.last()->WriteData_data);
            &&& ops.last() is WriteData
            &&& after.payer == before.payer
            &&& after.recipient == before.recipient
            &&& after.amount == before.amount
            &&& after.payment_id == before.payment_id
        },
{
    if accounts.len() >= 2 && is_record(accounts[1].data) {
        let p = record_of(accounts[1].data);
        assert(encodable(p));
        lemma_record_reads_back(p.with_status(PaymentStatus::Completed, now));
        lemma_record_reads_back(p.with_status(PaymentStatus::Cancelled, now));
    }
}

} // verus!
