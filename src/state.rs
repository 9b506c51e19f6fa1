use vstd::prelude::*;

verus! {

/// Where a payment stands in its lifecycle.
#[derive(Clone, Copy, Debug, PartialEq, Eq, Structural)]
pub enum PaymentStatus {
    Pending,
    Completed,
    Cancelled,
}

/// Why an instruction was refused. Each one aborts the whole instruction.
#[derive(Clone, Copy, Debug, PartialEq, Eq, Structural)]
pub enum PaymentError {
    /// Fewer accounts were supplied than the instruction reads.
    NotEnoughAccounts,
    /// The instruction bytes do not encode an instruction.
    InvalidInstruction,
    /// The record account does not hold an encoded payment.
    InvalidRecord,
    /// The payer did not sign.
    MissingAuthorization,
    /// The amount is zero.
    InvalidAmount,
    /// The record account is not the one derived from payer and payment id.
    AddressMismatch,
    /// The derived record account already exists.
    SlotOccupied,
    /// The record account is not owned by this program.
    WrongOwner,
    /// The signing payer is not the payer of the record.
    PayerMismatch,
    /// The recipient account is not the recipient of the record.
    RecipientMismatch,
    /// The payment was already completed or cancelled.
    NotPending,
    /// The payer holds less than the payment amount.
    InsufficientFunds,
}

/// One payment record, as persisted in its account.
#[derive(Clone, Debug)]
pub struct Payment {
    /// The identity that pays; fixed at creation.
    pub payer: [u8; 32],
    /// The identity that is paid; fixed at creation.
    pub recipient: [u8; 32],
    /// The lamports to move on completion; positive, fixed at creation.
    pub amount: u64,
    /// The payer's name for the payment, part of the record's address.
    pub payment_id: String,
    /// Pending until completed or cancelled; both are final.
    pub status: PaymentStatus,
    /// Seconds since the epoch of the last transition (creation at first).
    pub timestamp: i64,
}

/// The mathematical content of a `Payment`.
pub struct PaymentView {
    pub payer: Seq<u8>,
    pub recipient: Seq<u8>,
    pub amount: u64,
    pub payment_id: Seq<char>,
    pub status: PaymentStatus,
    pub timestamp: i64,
}

impl View for Payment {
    type V = PaymentView;

    open spec fn view(&self) -> PaymentView {
        PaymentView {
            payer: self.payer@,
            recipient: self.recipient@,
            amount: self.amount,
            payment_id: self.payment_id@,
            status: self.status,
            timestamp: self.timestamp,
        }
    }
}

impl PaymentView {
    /// Identities are 32 bytes long.
    pub open spec fn keys_sized(self) -> bool {
        self.payer.len() == 32 && self.recipient.len() == 32
    }

    /// The same record with a new status and timestamp; nothing else moves.
    pub open spec fn with_status(self, status: PaymentStatus, timestamp: i64) -> PaymentView {
        PaymentView { status, timestamp, ..self }
    }
}

/// Byte-wise equality of two identities.
pub fn keys_equal(a: &[u8; 32], b: &[u8; 32]) -> (r: bool)
    ensures
        r == (a@ == b@),
{
    let mut i: usize = 0;
    while i < 32
        invariant
            0 <= i <= 32,
            a@.len() == 32,
            b@.len() == 32,
            forall|j: int| 0 <= j < i ==> a@[j] == b@[j],
        decreases 32 - i,
    {
        if a[i] != b[i] {
            return false;
        }
        i = i + 1;
    }
    assert(a@ =~= b@);
    true
}

} // verus!
