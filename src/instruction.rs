//! The instructions the program accepts, and their byte layout: a one-byte
//! tag, then the fields of the variant.

use vstd::prelude::*;
use vstd::bytes::{
    spec_u32_from_le_bytes, spec_u32_to_le_bytes, spec_u64_from_le_bytes, spec_u64_to_le_bytes,
    lemma_auto_spec_u32_to_from_le_bytes, lemma_auto_spec_u64_to_from_le_bytes, u32_from_le_bytes,
    u32_to_le_bytes, u64_from_le_bytes, u64_to_le_bytes,
};
use vstd::slice::{slice_subrange, slice_to_vec};
use vstd::utf8::{
    decode_utf8, encode_utf8, encode_utf8_decode_utf8, encode_utf8_valid_utf8,
    decode_utf8_encode_utf8,
};
use crate::codec::{string_from_utf8, text_bytes, text_fits};

verus! {

broadcast use encode_utf8_valid_utf8, encode_utf8_decode_utf8;

/// A command to the program.
#[derive(Clone, Debug)]
pub enum PaymentInstruction {
    /// Create a pending payment of `amount` under `payment_id`.
    InitializePayment { amount: u64, payment_id: String },
    /// Move the amount from payer to recipient and close the payment.
    CompletePayment,
    /// Close the payment without moving funds.
    CancelPayment,
}

/// The mathematical content of a `PaymentInstruction`.
pub enum InstructionView {
    InitializePayment { amount: u64, payment_id: Seq<char> },
    CompletePayment,
    CancelPayment,
}

impl View for PaymentInstruction {
    type V = InstructionView;

    open spec fn view(&self) -> InstructionView {
        match self {
            PaymentInstruction::InitializePayment { amount, payment_id } => {
                InstructionView::InitializePayment { amount: *amount, payment_id: payment_id@ }
            },
            PaymentInstruction::CompletePayment => InstructionView::CompletePayment,
            PaymentInstruction::CancelPayment => InstructionView::CancelPayment,
        }
    }
}

/// The encoded form of an instruction.
pub open spec fn instruction_bytes(i: InstructionView) -> Seq<u8> {
    match i {
        InstructionView::InitializePayment { amount, payment_id } => seq![0u8]
            + spec_u64_to_le_bytes(amount) + text_bytes(payment_id),
        InstructionView::CompletePayment => seq![1u8],
        InstructionView::CancelPayment => seq![2u8],
    }
}

/// An instruction that has an encoded form.
pub open spec fn instruction_encodable(i: InstructionView) -> bool {
    match i {
        InstructionView::InitializePayment { payment_id, .. } => text_fits(payment_id),
        _ => true,
    }
}

/// The bytes are the encoded form of some instruction.
pub open spec fn is_instruction(s: Seq<u8>) -> bool {
    exists|i: InstructionView| instruction_encodable(i) && #[trigger] instruction_bytes(i) == s
}

proof fn lemma_instruction_layout(i: InstructionView)
    requires
        instruction_encodable(i),
    ensures
        ({
            let s = instruction_bytes(i);
            match i {
                InstructionView::InitializePayment { amount, payment_id } => {
                    let n = encode_utf8(payment_id).len() as int;
                    &&& s.len() == 13 + n
                    &&& s[0] == 0
                    &&& s.subrange(1, 9) == spec_u64_to_le_bytes(amount)
                    &&& spec_u32_from_le_bytes(s.subrange(9, 13)) == n
                    &&& s.subrange(13, 13 + n) == encode_utf8(payment_id)
                },
                InstructionView::CompletePayment => s == seq![1u8],
                InstructionView::CancelPayment => s == seq![2u8],
            }
        }),
{
    lemma_auto_spec_u32_to_from_le_bytes();
    lemma_auto_spec_u64_to_from_le_bytes();
    let s = instruction_bytes(i);
    match i {
        InstructionView::InitializePayment { amount, payment_id } => {
            let n = encode_utf8(payment_id).len() as int;
            assert(s.subrange(1, 9) =~= spec_u64_to_le_bytes(amount));
            assert(s.subrange(9, 13) =~= spec_u32_to_le_bytes(n as u32));
            assert(s.subrange(13, 13 + n) =~= encode_utf8(payment_id));
        },
        _ => {},
    }
}

/// Distinct instructions have distinct encoded forms.
pub proof fn lemma_instruction_bytes_injective(i: InstructionView, j: InstructionView)
    requires
        instruction_encodable(i),
        instruction_encodable(j),
        instruction_bytes(i) == instruction_bytes(j),
    ensures
        i == j,
{
    lemma_auto_spec_u64_to_from_le_bytes();
    lemma_instruction_layout(i);
    lemma_instruction_layout(j);
    match (i, j) {
        (
            InstructionView::InitializePayment { amount: a, payment_id: x },
            InstructionView::InitializePayment { amount: b, payment_id: y },
        ) => {
            assert(spec_u64_from_le_bytes(spec_u64_to_le_bytes(a)) == a);
            assert(spec_u64_from_le_bytes(spec_u64_to_le_bytes(b)) == b);
            let s = instruction_bytes(i);
            assert(encode_utf8(x).len() == encode_utf8(y).len());
            assert(encode_utf8(x) == s.subrange(13, s.len() as int));
            assert(encode_utf8(x) == encode_utf8(y));
            assert(decode_utf8(encode_utf8(x)) == x);
            assert(decode_utf8(encode_utf8(y)) == y);
        },
        (InstructionView::InitializePayment { .. }, _) => {
            assert(instruction_bytes(i).len() != instruction_bytes(j).len());
        },
        (_, InstructionView::InitializePayment { .. }) => {
            assert(instruction_bytes(i).len() != instruction_bytes(j).len());
        },
        _ => {
            assert(seq![1u8][0] == 1u8);
            assert(seq![2u8][0] == 2u8);
            assert(instruction_bytes(i)[0] == instruction_bytes(j)[0]);
        },
    }
}

/// The encoded form of an instruction.
pub fn encode_instruction(i: &PaymentInstruction) -> (r: Vec<u8>)
    requires
        instruction_encodable(i@),
    ensures
        r@ == instruction_bytes(i@),
{
    match i {
        PaymentInstruction::InitializePayment { amount, payment_id } => {
            let mut out: Vec<u8> = vec![0u8];
            let mut a = u64_to_le_bytes(*amount);
            out.append(&mut a);
            let id = payment_id.as_str().as_bytes();
            let mut len = u32_to_le_bytes(id.len() as u32);
            out.append(&mut len);
            let mut id_bytes = slice_to_vec(id);
            out.append(&mut id_bytes);
            assert(out@ =~= instruction_bytes(i@));
            out
        },
        PaymentInstruction::CompletePayment => {
            let out: Vec<u8> = vec![1u8];
            assert(out@ =~= instruction_bytes(i@));
            out
        },
        PaymentInstruction::CancelPayment => {
            let out: Vec<u8> = vec![2u8];
            assert(out@ =~= instruction_bytes(i@));
            out
        },
    }
}

/// Reads an instruction from its encoded form; `None` where the bytes are
/// not the encoded form of any instruction.
pub fn decode_instruction(data: &[u8]) -> (r: Option<PaymentInstruction>)
    ensures
        r is Some <==> is_instruction(data@),
        r matches Some(i) ==> instruction_encodable(i@) && instruction_bytes(i@) == data@,
{
    proof {
        lemma_auto_spec_u32_to_from_le_bytes();
        lemma_auto_spec_u64_to_from_le_bytes();
    }
    if data.len() == 1 && data[0] == 1 {
        let r = PaymentInstruction::CompletePayment;
        assert(instruction_bytes(r@) =~= data@);
        return Some(r);
    }
    if data.len() == 1 && data[0] == 2 {
        let r = PaymentInstruction::CancelPayment;
        assert(instruction_bytes(r@) =~= data@);
        return Some(r);
    }
    if data.len() < 13 || data[0] != 0 {
        proof {
            if is_instruction(data@) {
                let q = choose|q: InstructionView|
                    instruction_encodable(q) && #[trigger] instruction_bytes(q) == data@;
                lemma_instruction_layout(q);
            }
        }
        return None;
    }
    let amount = u64_from_le_bytes(slice_subrange(data, 1, 9));
    let n = u32_from_le_bytes(slice_subrange(data, 9, 13)) as usize;
    if data.len() - 13 != n {
        proof {
            if is_instruction(data@) {
                let q = choose|q: InstructionView|
                    instruction_encodable(q) && #[trigger] instruction_bytes(q) == data@;
                lemma_instruction_layout(q);
            }
        }
        return None;
    }
    let id_bytes = slice_to_vec(slice_subrange(data, 13, 13 + n));
    let payment_id = match string_from_utf8(id_bytes) {
        Some(s) => s,
        None => {
            proof {
                if is_instruction(data@) {
                    let q = choose|q: InstructionView|
                        instruction_encodable(q) && #[trigger] instruction_bytes(q) == data@;
                    lemma_instruction_layout(q);
                }
            }
            return None;
        },
    };
    let r = PaymentInstruction::InitializePayment { amount, payment_id };
    proof {
        decode_utf8_encode_utf8(data@.subrange(13, 13 + n as int));
        assert(instruction_bytes(r@) =~= data@);
    }
    Some(r)
}

} // verus!
