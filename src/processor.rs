//! The payment state machine. Each handler checks its preconditions in a
//! fixed order against a snapshot of its accounts and either refuses with
//! the first failing check or returns the ledger operations that carry the
//! instruction out.

use vstd::prelude::*;
use crate::address::{derive_payment_address, validate_address, payment_address, payment_seed_bytes, signer_seeds};
use crate::instruction::{
    decode_instruction, instruction_bytes, instruction_encodable, is_instruction,
    lemma_instruction_bytes_injective, InstructionView, PaymentInstruction,
};
use crate::codec::{decode_record, encodable, encode_record, is_record, lemma_record_bytes_injective, record_bytes};
use crate::ledger::{accounts_view, occupied, outcome_view, AccountSnapshot, AccountView, LedgerOp, OpView};
use crate::state::{keys_equal, Payment, PaymentError, PaymentStatus, PaymentView};

verus! {

/// The record that the bytes are the persisted form of.
pub open spec fn record_of(data: Seq<u8>) -> PaymentView {
    choose|p: PaymentView| encodable(p) && #[trigger] record_bytes(p) == data
}

/// The record that Initialize creates.
pub open spec fn new_record(
    payer: Seq<u8>,
    recipient: Seq<u8>,
    amount: u64,
    payment_id: Seq<char>,
    now: i64,
) -> PaymentView {
    PaymentView { payer, recipient, amount, payment_id, status: PaymentStatus::Pending, timestamp: now }
}

/// What Initialize does. Accounts: payer (signs), record, recipient, system
/// program.
pub open spec fn initialize_outcome(
    program_id: Seq<u8>,
    accounts: Seq<AccountView>,
    amount: u64,
    payment_id: Seq<char>,
    now: i64,
) -> Result<Seq<OpView>, PaymentError> {
    if accounts.len() < 4 {
        Err(PaymentError::NotEnoughAccounts)
    } else if !accounts[0].is_signer {
        Err(PaymentError::MissingAuthorization)
    } else if amount == 0 {
        Err(PaymentError::InvalidAmount)
    } else {
        match payment_address(program_id, accounts[0].key, payment_id) {
            None => Err(PaymentError::AddressMismatch),
            Some((address, bump)) => if address != accounts[1].key {
                Err(PaymentError::AddressMismatch)
            } else if occupied(accounts[1]) {
                Err(PaymentError::SlotOccupied)
            } else {
                let data = record_bytes(
                    new_record(accounts[0].key, accounts[2].key, amount, payment_id, now),
                );
                Ok(
                    seq![
                        OpView::CreateAccount {
                            payer: accounts[0].key,
                            address,
                            space: data.len() as u64,
                            owner: program_id,
                            seeds: signer_seeds(accounts[0].key, payment_id, bump),
                        },
                        OpView::WriteData { address, data },
                    ],
                )
            },
        }
    }
}

/// Creates a pending payment of `amount` from the payer (account 0) to the
/// recipient (account 2), identified by `payment_id`, in the record account
/// (account 1), which must be the one derived from payer and payment id and
/// must not exist yet.
pub fn initialize_payment(
    program_id: &[u8; 32],
    accounts: &Vec<AccountSnapshot>,
    amount: u64,
    payment_id: String,
    now: i64,
) -> (r: Result<Vec<LedgerOp>, PaymentError>)
    ensures
        outcome_view(r) == initialize_outcome(
            program_id@,
            accounts_view(accounts@),
            amount,
            payment_id@,
            now,
        ),
{
    let ghost view = accounts_view(accounts@);
    if accounts.len() < 4 {
        return Err(PaymentError::NotEnoughAccounts);
    }
    let payer = &accounts[0];
    let slot = &accounts[1];
    let recipient = &accounts[2];
    assert(view[0] == payer@ && view[1] == slot@ && view[2] == recipient@);
    if !payer.is_signer {
        return Err(PaymentError::MissingAuthorization);
    }
    if amount == 0 {
        return Err(PaymentError::InvalidAmount);
    }
    let (address, bump) = match derive_payment_address(program_id, &payer.key, payment_id.as_str()) {
        Some(found) => found,
        None => {
            return Err(PaymentError::AddressMismatch);
        },
    };
    if let Err(e) = validate_address(&address, &slot.key) {
        return Err(e);
    }
    if slot.lamports > 0 || slot.data.len() > 0 {
        return Err(PaymentError::SlotOccupied);
    }
    let record = Payment {
        payer: payer.key,
        recipient: recipient.key,
        amount,
        payment_id,
        status: PaymentStatus::Pending,
        timestamp: now,
    };
    let data = encode_record(&record);
    let mut seeds = payment_seed_bytes(&record.payer, record.payment_id.as_str());
    let bump_seed: Vec<u8> = vec![bump];
    assert(bump_seed.deep_view() =~= seq![bump]);
    seeds.push(bump_seed);
    assert(seeds.deep_view() =~= signer_seeds(payer.key@, record.payment_id@, bump));
    let create = LedgerOp::CreateAccount {
        payer: payer.key,
        address,
        space: data.len() as u64,
        owner: *program_id,
        seeds,
    };
    let write = LedgerOp::WriteData { address, data };
    let ops: Vec<LedgerOp> = vec![create, write];
    assert(outcome_view(Ok(ops)) == initialize_outcome(program_id@, view, amount, record.payment_id@, now)) by {
        assert(ops@.map_values(|o: LedgerOp| o@) =~= initialize_outcome(program_id@, view, amount, record.payment_id@, now)->Ok_0);
    }
    Ok(ops)
}

/// The record that Complete and Cancel act on, after the checks they share:
/// the payer signed, the program owns the record account, the account holds
/// a record, the account is the one derived from the record's own payer and
/// payment id, and the record's payer is the signer.
pub open spec fn checked_record(program_id: Seq<u8>, payer: AccountView, slot: AccountView) -> Result<
    PaymentView,
    PaymentError,
> {
    if !payer.is_signer {
        Err(PaymentError::MissingAuthorization)
    } else if slot.owner != program_id {
        Err(PaymentError::WrongOwner)
    } else if !is_record(slot.data) {
        Err(PaymentError::InvalidRecord)
    } else {
        let p = record_of(slot.data);
        match payment_address(program_id, p.payer, p.payment_id) {
            None => Err(PaymentError::AddressMismatch),
            Some((address, _bump)) => if address != slot.key {
                Err(PaymentError::AddressMismatch)
            } else if p.payer != payer.key {
                Err(PaymentError::PayerMismatch)
            } else {
                Ok(p)
            },
        }
    }
}

/// What Complete does. Accounts: payer (signs), record, recipient, system
/// program.
pub open spec fn complete_outcome(program_id: Seq<u8>, accounts: Seq<AccountView>, now: i64) -> Result<
    Seq<OpView>,
    PaymentError,
> {
    if accounts.len() < 4 {
        Err(PaymentError::NotEnoughAccounts)
    } else {
        match checked_record(program_id, accounts[0], accounts[1]) {
            Err(e) => Err(e),
            Ok(p) => if p.recipient != accounts[2].key {
                Err(PaymentError::RecipientMismatch)
            } else if p.status != PaymentStatus::Pending {
                Err(PaymentError::NotPending)
            } else if accounts[0].lamports < p.amount {
                Err(PaymentError::InsufficientFunds)
            } else {
                Ok(
                    seq![
                        OpView::Transfer { from: accounts[0].key, to: accounts[2].key, amount: p.amount },
                        OpView::WriteData {
                            address: accounts[1].key,
                            data: record_bytes(p.with_status(PaymentStatus::Completed, now)),
                        },
                    ],
                )
            },
        }
    }
}

/// What Cancel does. Accounts: payer (signs), record.
pub open spec fn cancel_outcome(program_id: Seq<u8>, accounts: Seq<AccountView>, now: i64) -> Result<
    Seq<OpView>,
    PaymentError,
> {
    if accounts.len() < 2 {
        Err(PaymentError::NotEnoughAccounts)
    } else {
        match checked_record(program_id, accounts[0], accounts[1]) {
            Err(e) => Err(e),
            Ok(p) => if p.status != PaymentStatus::Pending {
                Err(PaymentError::NotPending)
            } else {
                Ok(
                    seq![
                        OpView::WriteData {
                            address: accounts[1].key,
                            data: record_bytes(p.with_status(PaymentStatus::Cancelled, now)),
                        },
                    ],
                )
            },
        }
    }
}

/// Runs the checks that Complete and Cancel share and reads the record.
fn load_record(program_id: &[u8; 32], payer: &AccountSnapshot, slot: &AccountSnapshot) -> (r:
    Result<Payment, PaymentError>)
    ensures
        match r {
            Ok(p) => checked_record(program_id@, payer@, slot@) == Ok::<PaymentView, PaymentError>(
                p@,
            ) && encodable(p@),
            Err(e) => checked_record(program_id@, payer@, slot@) == Err::<PaymentView, PaymentError>(
                e,
            ),
        },
{
    if !payer.is_signer {
        return Err(PaymentError::MissingAuthorization);
    }
    if !keys_equal(&slot.owner, program_id) {
        return Err(PaymentError::WrongOwner);
    }
    let record = match decode_record(slot.data.as_slice()) {
        Some(p) => p,
        None => {
            return Err(PaymentError::InvalidRecord);
        },
    };
    proof {
        let q = record_of(slot.data@);
        lemma_record_bytes_injective(record@, q);
    }
    let address = match derive_payment_address(program_id, &record.payer, record.payment_id.as_str()) {
        Some(found) => found.0,
        None => {
            return Err(PaymentError::AddressMismatch);
        },
    };
    if let Err(e) = validate_address(&address, &slot.key) {
        return Err(e);
    }
    if !keys_equal(&record.payer, &payer.key) {
        return Err(PaymentError::PayerMismatch);
    }
    Ok(record)
}

/// Pays a pending payment: moves its amount from the payer (account 0) to
/// the recipient (account 2), then marks the record (account 1) completed at
/// `now`. The transfer comes first, so a refused transfer leaves the record
/// as it was.
pub fn complete_payment(program_id: &[u8; 32], accounts: &Vec<AccountSnapshot>, now: i64) -> (r:
    Result<Vec<LedgerOp>, PaymentError>)
    ensures
        outcome_view(r) == complete_outcome(program_id@, accounts_view(accounts@), now),
{
    let ghost view = accounts_view(accounts@);
    if accounts.len() < 4 {
        return Err(PaymentError::NotEnoughAccounts);
    }
    let payer = &accounts[0];
    let slot = &accounts[1];
    let recipient = &accounts[2];
    assert(view[0] == payer@ && view[1] == slot@ && view[2] == recipient@);
    let mut record = match load_record(program_id, payer, slot) {
        Ok(p) => p,
        Err(e) => {
            return Err(e);
        },
    };
    if !keys_equal(&record.recipient, &recipient.key) {
        return Err(PaymentError::RecipientMismatch);
    }
    if record.status != PaymentStatus::Pending {
        return Err(PaymentError::NotPending);
    }
    if payer.lamports < record.amount {
        return Err(PaymentError::InsufficientFunds);
    }
    let ghost before = record@;
    let transfer = LedgerOp::Transfer { from: payer.key, to: recipient.key, amount: record.amount };
    record.status = PaymentStatus::Completed;
    record.timestamp = now;
    assert(record@ == before.with_status(PaymentStatus::Completed, now));
    let data = encode_record(&record);
    let write = LedgerOp::WriteData { address: slot.key, data };
    let ops: Vec<LedgerOp> = vec![transfer, write];
    assert(ops@.map_values(|o: LedgerOp| o@) =~= complete_outcome(program_id@, view, now)->Ok_0);
    Ok(ops)
}

/// Cancels a pending payment: marks the record (account 1) cancelled at
/// `now`. No funds move.
pub fn cancel_payment(program_id: &[u8; 32], accounts: &Vec<AccountSnapshot>, now: i64) -> (r:
    Result<Vec<LedgerOp>, PaymentError>)
    ensures
        outcome_view(r) == cancel_outcome(program_id@, accounts_view(accounts@), now),
{
    let ghost view = accounts_view(accounts@);
    if accounts.len() < 2 {
        return Err(PaymentError::NotEnoughAccounts);
    }
    let payer = &accounts[0];
    let slot = &accounts[1];
    assert(view[0] == payer@ && view[1] == slot@);
    let mut record = match load_record(program_id, payer, slot) {
        Ok(p) => p,
        Err(e) => {
            return Err(e);
        },
    };
    if record.status != PaymentStatus::Pending {
        return Err(PaymentError::NotPending);
    }
    let ghost before = record@;
    record.status = PaymentStatus::Cancelled;
    record.timestamp = now;
    assert(record@ == before.with_status(PaymentStatus::Cancelled, now));
    let data = encode_record(&record);
    let write = LedgerOp::WriteData { address: slot.key, data };
    let ops: Vec<LedgerOp> = vec![write];
    assert(ops@.map_values(|o: LedgerOp| o@) =~= cancel_outcome(program_id@, view, now)->Ok_0);
    Ok(ops)
}

/// The instruction that the bytes encode.
pub open spec fn instruction_of(data: Seq<u8>) -> InstructionView {
    choose|i: InstructionView| instruction_encodable(i) && #[trigger] instruction_bytes(i) == data
}

/// What the program does with an encoded instruction.
pub open spec fn process_outcome(
    program_id: Seq<u8>,
    accounts: Seq<AccountView>,
    instruction_data: Seq<u8>,
    now: i64,
) -> Result<Seq<OpView>, PaymentError> {
    if !is_instruction(instruction_data) {
        Err(PaymentError::InvalidInstruction)
    } else {
        match instruction_of(instruction_data) {
            InstructionView::InitializePayment { amount, payment_id } => initialize_outcome(
                program_id,
                accounts,
                amount,
                payment_id,
                now,
            ),
            InstructionView::CompletePayment => complete_outcome(program_id, accounts, now),
            InstructionView::CancelPayment => cancel_outcome(program_id, accounts, now),
        }
    }
}

/// Decodes an instruction and hands it to its handler.
pub fn process_instruction(
    program_id: &[u8; 32],
    accounts: &Vec<AccountSnapshot>,
    instruction_data: &[u8],
    now: i64,
) -> (r: Result<Vec<LedgerOp>, PaymentError>)
    ensures
        outcome_view(r) == process_outcome(
            program_id@,
            accounts_view(accounts@),
            instruction_data@,
            now,
        ),
{
    let instruction = match decode_instruction(instruction_data) {
        Some(i) => i,
        None => {
            return Err(PaymentError::InvalidInstruction);
        },
    };
    proof {
        lemma_instruction_bytes_injective(instruction@, instruction_of(instruction_data@));
    }
    match instruction {
        PaymentInstruction::InitializePayment { amount, payment_id } => {
            initialize_payment(program_id, accounts, amount, payment_id, now)
        },
        PaymentInstruction::CompletePayment => complete_payment(program_id, accounts, now),
        PaymentInstruction::CancelPayment => cancel_payment(program_id, accounts, now),
    }
}

/// An encoded instruction is dispatched to its own handler with its own
/// fields.
pub proof fn lemma_encoded_instruction_dispatch(
    program_id: Seq<u8>,
    accounts: Seq<AccountView>,
    i: InstructionView,
    now: i64,
)
    requires
        instruction_encodable(i),
    ensures
        is_instruction(instruction_bytes(i)),
        instruction_of(instruction_bytes(i)) == i,
        process_outcome(program_id, accounts, instruction_bytes(i), now) == match i {
            InstructionView::InitializePayment { amount, payment_id } => initialize_outcome(
                program_id,
                accounts,
                amount,
                payment_id,
                now,
            ),
            InstructionView::CompletePayment => complete_outcome(program_id, accounts, now),
            InstructionView::CancelPayment => cancel_outcome(program_id, accounts, now),
        },
{
    assert(instruction_encodable(i) && instruction_bytes(i) == instruction_bytes(i));
    lemma_instruction_bytes_injective(i, instruction_of(instruction_bytes(i)));
}

} // verus!
