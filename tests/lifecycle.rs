use solana_program::pubkey::Pubkey;
use solana_x402_payment_protocol::address::derive_payment_address;
use solana_x402_payment_protocol::codec::{decode_record, encode_record};
use solana_x402_payment_protocol::instruction::{decode_instruction, encode_instruction, PaymentInstruction};
use solana_x402_payment_protocol::ledger::{AccountSnapshot, LedgerOp};
use solana_x402_payment_protocol::processor::{
    cancel_payment, complete_payment, initialize_payment, process_instruction,
};
use solana_x402_payment_protocol::state::{Payment, PaymentError, PaymentStatus};

const PROGRAM: [u8; 32] = [7u8; 32];
const PAYER: [u8; 32] = [1u8; 32];
const RECIPIENT: [u8; 32] = [2u8; 32];
const SYSTEM: [u8; 32] = [0u8; 32];

/// A small in-memory ledger that carries out the operations a handler returns.
struct Ledger {
    accounts: Vec<AccountSnapshot>,
}

impl Ledger {
    fn new(payer_lamports: u64, slot: [u8; 32]) -> Ledger {
        Ledger {
            accounts: vec![
                account(PAYER, true, SYSTEM, payer_lamports),
                account(slot, false, SYSTEM, 0),
                account(RECIPIENT, false, SYSTEM, 0),
                account(SYSTEM, false, SYSTEM, 1),
            ],
        }
    }

    fn find(&mut self, key: &[u8; 32]) -> &mut AccountSnapshot {
        self.accounts.iter_mut().find(|a| &a.key == key).expect("account")
    }

    fn apply(&mut self, ops: &[LedgerOp]) {
        for op in ops {
            match op {
                LedgerOp::CreateAccount { payer, address, space, owner, .. } => {
                    let funding = 10 + *space;
                    self.find(payer).lamports -= funding;
                    let slot = self.find(address);
                    slot.lamports += funding;
                    slot.owner = *owner;
                    slot.data = vec![0u8; *space as usize];
                }
                LedgerOp::Transfer { from, to, amount } => {
                    self.find(from).lamports -= amount;
                    self.find(to).lamports += amount;
                }
                LedgerOp::WriteData { address, data } => {
                    let slot = self.find(address);
                    assert_eq!(slot.data.len(), data.len());
                    slot.data = data.clone();
                }
            }
        }
    }

    fn lamports(&self, key: &[u8; 32]) -> u64 {
        self.accounts.iter().find(|a| &a.key == key).unwrap().lamports
    }

    fn record(&self) -> Payment {
        decode_record(&self.accounts[1].data).expect("record")
    }
}

fn account(key: [u8; 32], is_signer: bool, owner: [u8; 32], lamports: u64) -> AccountSnapshot {
    AccountSnapshot { key, is_signer, owner, lamports, data: Vec::new() }
}

fn pda(payment_id: &str) -> [u8; 32] {
    derive_payment_address(&PROGRAM, &PAYER, payment_id).expect("address").0
}

fn init_data(amount: u64, payment_id: &str) -> Vec<u8> {
    encode_instruction(&PaymentInstruction::InitializePayment {
        amount,
        payment_id: payment_id.to_string(),
    })
}

fn initialized(amount: u64, payment_id: &str, payer_lamports: u64, now: i64) -> Ledger {
    let mut ledger = Ledger::new(payer_lamports, pda(payment_id));
    let ops = process_instruction(&PROGRAM, &ledger.accounts, &init_data(amount, payment_id), now)
        .expect("initialize");
    ledger.apply(&ops);
    ledger
}

#[test]
fn test_initialize_payment() {
    let amount = 1_000_000_000;
    let ledger = initialized(amount, "TEST-001", 5_000_000_000, 100);
    let payment = ledger.record();
    assert_eq!(payment.payer, PAYER);
    assert_eq!(payment.recipient, RECIPIENT);
    assert_eq!(payment.amount, amount);
    assert_eq!(payment.payment_id, "TEST-001");
    assert_eq!(payment.status, PaymentStatus::Pending);
    assert_eq!(payment.timestamp, 100);
    assert_eq!(ledger.accounts[1].owner, PROGRAM);
}

#[test]
fn test_complete_payment() {
    let amount = 500_000_000;
    let mut ledger = initialized(amount, "TEST-002", 5_000_000_000, 100);
    let payer_before = ledger.lamports(&PAYER);
    let ops = process_instruction(&PROGRAM, &ledger.accounts, &[1u8], 200).expect("complete");
    ledger.apply(&ops);
    let payment = ledger.record();
    assert_eq!(payment.status, PaymentStatus::Completed);
    assert_eq!(payment.timestamp, 200);
    assert_eq!(ledger.lamports(&RECIPIENT), amount);
    assert_eq!(payer_before - ledger.lamports(&PAYER), amount);
}

#[test]
fn test_cancel_payment() {
    let mut ledger = initialized(300_000_000, "TEST-003", 5_000_000_000, 100);
    let payer_before = ledger.lamports(&PAYER);
    let ops = process_instruction(&PROGRAM, &ledger.accounts, &[2u8], 150).expect("cancel");
    assert_eq!(ops.len(), 1);
    ledger.apply(&ops);
    let payment = ledger.record();
    assert_eq!(payment.status, PaymentStatus::Cancelled);
    assert_eq!(payment.timestamp, 150);
    assert_eq!(ledger.lamports(&PAYER), payer_before);
    assert_eq!(ledger.lamports(&RECIPIENT), 0);
}

#[test]
fn test_cannot_complete_cancelled_payment() {
    let mut ledger = initialized(200_000_000, "TEST-004", 5_000_000_000, 100);
    let ops = process_instruction(&PROGRAM, &ledger.accounts, &[2u8], 150).expect("cancel");
    ledger.apply(&ops);
    let r = process_instruction(&PROGRAM, &ledger.accounts, &[1u8], 160);
    assert_eq!(r.unwrap_err(), PaymentError::NotPending);
    assert_eq!(ledger.lamports(&RECIPIENT), 0);
}

#[test]
fn example_scenario_second_complete_changes_nothing() {
    let mut ledger = initialized(1_000_000, "INV-42", 10_000_000, 1_000);
    let payer_after_init = ledger.lamports(&PAYER);
    let ops = complete_payment(&PROGRAM, &ledger.accounts, 1_005).expect("complete");
    ledger.apply(&ops);
    assert_eq!(ledger.lamports(&RECIPIENT), 1_000_000);
    assert_eq!(ledger.lamports(&PAYER), payer_after_init - 1_000_000);
    let r = complete_payment(&PROGRAM, &ledger.accounts, 1_010);
    assert_eq!(r.unwrap_err(), PaymentError::NotPending);
    assert_eq!(ledger.lamports(&RECIPIENT), 1_000_000);
    assert_eq!(ledger.lamports(&PAYER), payer_after_init - 1_000_000);
    let payment = ledger.record();
    assert_eq!(payment.status, PaymentStatus::Completed);
    assert!(payment.timestamp >= 1_000);
}

#[test]
fn derived_address_matches_solana_and_is_deterministic() {
    let (address, bump) = derive_payment_address(&PROGRAM, &PAYER, "INV-42").unwrap();
    let again = derive_payment_address(&PROGRAM, &PAYER, "INV-42").unwrap();
    assert_eq!((address, bump), again);
    let (expected, expected_bump) = Pubkey::find_program_address(
        &[b"payment", &PAYER, b"INV-42"],
        &Pubkey::new_from_array(PROGRAM),
    );
    assert_eq!(address, expected.to_bytes());
    assert_eq!(bump, expected_bump);
    assert_ne!(address, PAYER);
}

#[test]
fn different_payment_ids_get_different_addresses() {
    assert_ne!(pda("INV-1"), pda("INV-2"));
    let other = derive_payment_address(&PROGRAM, &RECIPIENT, "INV-1").unwrap().0;
    assert_ne!(pda("INV-1"), other);
}

#[test]
fn payment_id_longer_than_a_seed_has_no_address() {
    let long = "x".repeat(33);
    assert!(derive_payment_address(&PROGRAM, &PAYER, &long).is_none());
    assert!(derive_payment_address(&PROGRAM, &PAYER, &"x".repeat(32)).is_some());
    let ledger = Ledger::new(1_000, [9u8; 32]);
    let r = initialize_payment(&PROGRAM, &ledger.accounts, 5, long, 0);
    assert_eq!(r.unwrap_err(), PaymentError::AddressMismatch);
}

#[test]
fn second_initialize_fails_slot_occupied() {
    let ledger = initialized(700, "DUP", 1_000_000, 100);
    let r = process_instruction(&PROGRAM, &ledger.accounts, &init_data(900, "DUP"), 101);
    assert_eq!(r.unwrap_err(), PaymentError::SlotOccupied);
}

#[test]
fn insufficient_funds_leaves_record_pending() {
    let ledger = initialized(1_000_000, "POOR", 1_000_000, 100);
    let before = ledger.accounts[1].data.clone();
    assert!(ledger.lamports(&PAYER) < 1_000_000);
    let r = complete_payment(&PROGRAM, &ledger.accounts, 120);
    assert_eq!(r.unwrap_err(), PaymentError::InsufficientFunds);
    assert_eq!(ledger.accounts[1].data, before);
    assert_eq!(ledger.record().status, PaymentStatus::Pending);
}

#[test]
fn terms_stay_constant_through_lifecycle() {
    let mut ledger = initialized(4_242, "TERMS", 1_000_000, 100);
    let first = ledger.record();
    let ops = complete_payment(&PROGRAM, &ledger.accounts, 300).unwrap();
    ledger.apply(&ops);
    let last = ledger.record();
    assert_eq!(first.payer, last.payer);
    assert_eq!(first.recipient, last.recipient);
    assert_eq!(first.amount, last.amount);
    assert_eq!(first.payment_id, last.payment_id);
    assert_eq!(last.status, PaymentStatus::Completed);
    assert_eq!(last.timestamp, 300);
}

#[test]
fn initialize_errors() {
    let slot = pda("E-1");
    let mut ledger = Ledger::new(1_000_000, slot);
    ledger.accounts[0].is_signer = false;
    let r = initialize_payment(&PROGRAM, &ledger.accounts, 5, "E-1".to_string(), 0);
    assert_eq!(r.unwrap_err(), PaymentError::MissingAuthorization);
    ledger.accounts[0].is_signer = true;
    let r = initialize_payment(&PROGRAM, &ledger.accounts, 0, "E-1".to_string(), 0);
    assert_eq!(r.unwrap_err(), PaymentError::InvalidAmount);
    let r = initialize_payment(&PROGRAM, &ledger.accounts, 5, "E-2".to_string(), 0);
    assert_eq!(r.unwrap_err(), PaymentError::AddressMismatch);
    let r = initialize_payment(&PROGRAM, &ledger.accounts[..3].to_vec(), 5, "E-1".to_string(), 0);
    assert_eq!(r.unwrap_err(), PaymentError::NotEnoughAccounts);
    ledger.accounts[1].lamports = 1;
    let r = initialize_payment(&PROGRAM, &ledger.accounts, 5, "E-1".to_string(), 0);
    assert_eq!(r.unwrap_err(), PaymentError::SlotOccupied);
}

#[test]
fn initialize_plans_creation_then_write() {
    let ledger = Ledger::new(1_000_000, pda("PLAN"));
    let ops = initialize_payment(&PROGRAM, &ledger.accounts, 77, "PLAN".to_string(), 5).unwrap();
    assert_eq!(ops.len(), 2);
    let (address, bump) = derive_payment_address(&PROGRAM, &PAYER, "PLAN").unwrap();
    match &ops[0] {
        LedgerOp::CreateAccount { payer, address: a, space, owner, seeds } => {
            assert_eq!(*payer, PAYER);
            assert_eq!(*a, address);
            assert_eq!(*space, 85 + 4);
            assert_eq!(*owner, PROGRAM);
            assert_eq!(seeds, &vec![b"payment".to_vec(), PAYER.to_vec(), b"PLAN".to_vec(), vec![bump]]);
        }
        other => panic!("unexpected {:?}", other),
    }
    match &ops[1] {
        LedgerOp::WriteData { address: a, data } => {
            assert_eq!(*a, address);
            assert_eq!(data.len(), 89);
        }
        other => panic!("unexpected {:?}", other),
    }
}

#[test]
fn complete_and_cancel_errors() {
    let ledger = initialized(1_000, "E-3", 1_000_000, 100);
    let mut accounts = ledger.accounts.clone();
    accounts[0].is_signer = false;
    assert_eq!(complete_payment(&PROGRAM, &accounts, 1).unwrap_err(), PaymentError::MissingAuthorization);
    assert_eq!(cancel_payment(&PROGRAM, &accounts, 1).unwrap_err(), PaymentError::MissingAuthorization);
    let mut accounts = ledger.accounts.clone();
    accounts[1].owner = [3u8; 32];
    assert_eq!(complete_payment(&PROGRAM, &accounts, 1).unwrap_err(), PaymentError::WrongOwner);
    assert_eq!(cancel_payment(&PROGRAM, &accounts, 1).unwrap_err(), PaymentError::WrongOwner);
    let mut accounts = ledger.accounts.clone();
    accounts[0].key = [4u8; 32];
    assert_eq!(complete_payment(&PROGRAM, &accounts, 1).unwrap_err(), PaymentError::PayerMismatch);
    assert_eq!(cancel_payment(&PROGRAM, &accounts, 1).unwrap_err(), PaymentError::PayerMismatch);
    let mut accounts = ledger.accounts.clone();
    accounts[2].key = [5u8; 32];
    assert_eq!(complete_payment(&PROGRAM, &accounts, 1).unwrap_err(), PaymentError::RecipientMismatch);
    let mut accounts = ledger.accounts.clone();
    accounts[1].key = [6u8; 32];
    assert_eq!(complete_payment(&PROGRAM, &accounts, 1).unwrap_err(), PaymentError::AddressMismatch);
    let mut accounts = ledger.accounts.clone();
    accounts[1].data = vec![1, 2, 3];
    assert_eq!(complete_payment(&PROGRAM, &accounts, 1).unwrap_err(), PaymentError::InvalidRecord);
    assert_eq!(complete_payment(&PROGRAM, &ledger.accounts[..3].to_vec(), 1).unwrap_err(), PaymentError::NotEnoughAccounts);
    assert_eq!(cancel_payment(&PROGRAM, &ledger.accounts[..1].to_vec(), 1).unwrap_err(), PaymentError::NotEnoughAccounts);
}

#[test]
fn invalid_instruction_data_is_refused() {
    let ledger = Ledger::new(1_000, [9u8; 32]);
    for data in [vec![], vec![3u8], vec![1u8, 0], vec![0u8, 1, 2]] {
        let r = process_instruction(&PROGRAM, &ledger.accounts, &data, 0);
        assert_eq!(r.unwrap_err(), PaymentError::InvalidInstruction);
    }
    let mut bad_utf8 = init_data(5, "ab");
    let n = bad_utf8.len();
    bad_utf8[n - 1] = 0xff;
    assert!(decode_instruction(&bad_utf8).is_none());
}

#[test]
fn instruction_encoding_matches_borsh() {
    let data = init_data(1_000_000_000, "TEST-001");
    let mut expected = vec![0u8, 0x00, 0xCA, 0x9A, 0x3B, 0, 0, 0, 0, 8, 0, 0, 0];
    expected.extend_from_slice(b"TEST-001");
    assert_eq!(data, expected);
    assert_eq!(data, borsh::to_vec(&(0u8, 1_000_000_000u64, "TEST-001".to_string())).unwrap());
    assert_eq!(encode_instruction(&PaymentInstruction::CompletePayment), vec![1u8]);
    assert_eq!(encode_instruction(&PaymentInstruction::CancelPayment), vec![2u8]);
    match decode_instruction(&data).unwrap() {
        PaymentInstruction::InitializePayment { amount, payment_id } => {
            assert_eq!(amount, 1_000_000_000);
            assert_eq!(payment_id, "TEST-001");
        }
        other => panic!("unexpected {:?}", other),
    }
}

#[test]
fn record_encoding_matches_borsh_and_reads_back() {
    let payment = Payment {
        payer: PAYER,
        recipient: RECIPIENT,
        amount: 1_000_000,
        payment_id: "INV-42é".to_string(),
        status: PaymentStatus::Cancelled,
        timestamp: -5,
    };
    let bytes = encode_record(&payment);
    let expected = borsh::to_vec(&(PAYER, RECIPIENT, 1_000_000u64, "INV-42é".to_string(), 2u8, -5i64)).unwrap();
    assert_eq!(bytes, expected);
    assert_eq!(bytes.len(), 85 + 8);
    let back = decode_record(&bytes).unwrap();
    assert_eq!(back.payer, PAYER);
    assert_eq!(back.recipient, RECIPIENT);
    assert_eq!(back.amount, 1_000_000);
    assert_eq!(back.payment_id, "INV-42é");
    assert_eq!(back.status, PaymentStatus::Cancelled);
    assert_eq!(back.timestamp, -5);
}

#[test]
fn malformed_records_are_refused() {
    let payment = Payment {
        payer: PAYER,
        recipient: RECIPIENT,
        amount: 9,
        payment_id: "R".to_string(),
        status: PaymentStatus::Pending,
        timestamp: 0,
    };
    let bytes = encode_record(&payment);
    let mut longer = bytes.clone();
    longer.push(0);
    assert!(decode_record(&longer).is_none());
    assert!(decode_record(&bytes[..bytes.len() - 1]).is_none());
    let mut bad_status = bytes.clone();
    bad_status[77] = 3;
    assert!(decode_record(&bad_status).is_none());
    let mut bad_text = bytes.clone();
    bad_text[76] = 0xff;
    assert!(decode_record(&bad_text).is_none());
    assert!(decode_record(&[]).is_none());
}
