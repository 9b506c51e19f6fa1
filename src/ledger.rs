//! What the handlers see of the ledger, and what they ask of it.

use vstd::prelude::*;

verus! {

/// One account as the ledger shows it to an instruction.
#[derive(Clone, Debug)]
pub struct AccountSnapshot {
    pub key: [u8; 32],
    pub is_signer: bool,
    pub owner: [u8; 32],
    pub lamports: u64,
    pub data: Vec<u8>,
}

/// The mathematical content of an `AccountSnapshot`.
pub struct AccountView {
    pub key: Seq<u8>,
    pub is_signer: bool,
    pub owner: Seq<u8>,
    pub lamports: u64,
    pub data: Seq<u8>,
}

impl View for AccountSnapshot {
    type V = AccountView;

    open spec fn view(&self) -> AccountView {
        AccountView {
            key: self.key@,
            is_signer: self.is_signer,
            owner: self.owner@,
            lamports: self.lamports,
            data: self.data@,
        }
    }
}

/// An operation for the ledger to perform. The operations of one
/// instruction run in order, and all of them or none take effect.
#[derive(Clone, Debug)]
pub enum LedgerOp {
    /// Allocate `space` bytes at `address`, owned by `owner` and funded by
    /// `payer` with the ledger's minimum balance for that size; the program
    /// authorises it for the derived address through `seeds`.
    CreateAccount {
        payer: [u8; 32],
        address: [u8; 32],
        space: u64,
        owner: [u8; 32],
        seeds: Vec<Vec<u8>>,
    },
    /// Move `amount` lamports from `from` to `to`.
    Transfer { from: [u8; 32], to: [u8; 32], amount: u64 },
    /// Store `data` as the contents of the account at `address`.
    WriteData { address: [u8; 32], data: Vec<u8> },
}

/// The mathematical content of a `LedgerOp`.
pub enum OpView {
    CreateAccount {
        payer: Seq<u8>,
        address: Seq<u8>,
        space: u64,
        owner: Seq<u8>,
        seeds: Seq<Seq<u8>>,
    },
    Transfer { from: Seq<u8>, to: Seq<u8>, amount: u64 },
    WriteData { address: Seq<u8>, data: Seq<u8> },
}

impl View for LedgerOp {
    type V = OpView;

    open spec fn view(&self) -> OpView {
        match self {
            LedgerOp::CreateAccount { payer, address, space, owner, seeds } => OpView::CreateAccount {
                payer: payer@,
                address: address@,
                space: *space,
                owner: owner@,
                seeds: seeds.deep_view(),
            },
            LedgerOp::Transfer { from, to, amount } => OpView::Transfer {
                from: from@,
                to: to@,
                amount: *amount,
            },
            LedgerOp::WriteData { address, data } => OpView::WriteData {
                address: address@,
                data: data@,
            },
        }
    }
}

/// The accounts of an instruction, as views.
pub open spec fn accounts_view(accounts: Seq<AccountSnapshot>) -> Seq<AccountView> {
    accounts.map_values(|a: AccountSnapshot| a@)
}

/// A handler's answer, as views.
pub open spec fn outcome_view(r: Result<Vec<LedgerOp>, crate::state::PaymentError>) -> Result<
    Seq<OpView>,
    crate::state::PaymentError,
> {
    match r {
        Ok(ops) => Ok(ops@.map_values(|o: LedgerOp| o@)),
        Err(e) => Err(e),
    }
}

/// The change that the transfers among `ops` make to the balance of `who`.
pub open spec fn balance_change(ops: Seq<OpView>, who: Seq<u8>) -> int
    decreases ops.len(),
{
    if ops.len() == 0 {
        0
    } else {
        let rest = balance_change(ops.drop_last(), who);
        match ops.last() {
            OpView::Transfer { from, to, amount } => rest + (if to == who {
                amount as int
            } else {
                0
            }) - (if from == who {
                amount as int
            } else {
                0
            }),
            _ => rest,
        }
    }
}

/// The account exists already: it holds lamports or data.
pub open spec fn occupied(a: AccountView) -> bool {
    a.lamports > 0 || a.data.len() > 0
}

} // verus!
