//! The byte layout of payment records and instructions: fixed-size fields in
//! little-endian order, texts as a 32-bit length followed by UTF-8 bytes,
//! enums as a one-byte tag.

use vstd::prelude::*;
use vstd::bytes::{
    spec_u32_from_le_bytes, spec_u32_to_le_bytes, spec_u64_from_le_bytes, spec_u64_to_le_bytes,
    lemma_auto_spec_u32_to_from_le_bytes, lemma_auto_spec_u64_to_from_le_bytes, u32_from_le_bytes,
    u32_to_le_bytes, u64_from_le_bytes, u64_to_le_bytes,
};
use vstd::slice::{slice_subrange, slice_to_vec};
use vstd::utf8::{
    decode_utf8, encode_utf8, valid_utf8, encode_utf8_decode_utf8, encode_utf8_valid_utf8,
    decode_utf8_encode_utf8,
};
use crate::state::{Payment, PaymentStatus, PaymentView};

verus! {

broadcast use encode_utf8_valid_utf8, encode_utf8_decode_utf8;

/// Bytes of a record before its payment id: payer, recipient, amount.
pub const RECORD_HEAD: usize = 72;

/// Relies on std's `String::from_utf8`: it succeeds exactly on valid UTF-8,
/// and the string it returns holds the decoded characters.
#[verifier::external_body]
pub(crate) fn string_from_utf8(bytes: Vec<u8>) -> (r: Option<String>)
    ensures
        r is Some <==> valid_utf8(bytes@),
        r matches Some(s) ==> s@ == decode_utf8(bytes@),
{
    String::from_utf8(bytes).ok()
}

/// The one-byte tag of a status.
pub open spec fn status_tag(s: PaymentStatus) -> u8 {
    match s {
        PaymentStatus::Pending => 0,
        PaymentStatus::Completed => 1,
        PaymentStatus::Cancelled => 2,
    }
}

/// A text: its UTF-8 length as 32 bits, then its UTF-8 bytes.
pub open spec fn text_bytes(s: Seq<char>) -> Seq<u8> {
    spec_u32_to_le_bytes(encode_utf8(s).len() as u32) + encode_utf8(s)
}

/// A text whose length fits in the 32-bit prefix.
pub open spec fn text_fits(s: Seq<char>) -> bool {
    encode_utf8(s).len() <= u32::MAX
}

/// The persisted form of a record.
pub open spec fn record_bytes(p: PaymentView) -> Seq<u8> {
    p.payer + p.recipient + spec_u64_to_le_bytes(p.amount) + text_bytes(p.payment_id) + seq![
        status_tag(p.status),
    ] + spec_u64_to_le_bytes(p.timestamp as u64)
}

/// A record that has a persisted form.
pub open spec fn encodable(p: PaymentView) -> bool {
    p.keys_sized() && text_fits(p.payment_id)
}

/// The bytes are the persisted form of some record.
pub open spec fn is_record(s: Seq<u8>) -> bool {
    exists|p: PaymentView| encodable(p) && #[trigger] record_bytes(p) == s
}

proof fn lemma_i64_u64_round(x: u64)
    ensures
        ((x as i64) as u64) == x,
{
    assert(((x as i64) as u64) == x) by (bit_vector);
}

proof fn lemma_u64_i64_injective(a: i64, b: i64)
    requires
        (a as u64) == (b as u64),
    ensures
        a == b,
{
    assert((a as u64) == (b as u64) ==> a == b) by (bit_vector);
}

/// Where each field of a record lies in its persisted form.
pub proof fn lemma_record_layout(p: PaymentView)
    requires
        encodable(p),
    ensures
        ({
            let s = record_bytes(p);
            let n = encode_utf8(p.payment_id).len() as int;
            &&& s.len() == 85 + n
            &&& s.subrange(0, 32) == p.payer
            &&& s.subrange(32, 64) == p.recipient
            &&& s.subrange(64, 72) == spec_u64_to_le_bytes(p.amount)
            &&& s.subrange(72, 76) == spec_u32_to_le_bytes(n as u32)
            &&& spec_u32_from_le_bytes(s.subrange(72, 76)) == n
            &&& s.subrange(76, 76 + n) == encode_utf8(p.payment_id)
            &&& s[76 + n] == status_tag(p.status)
            &&& s.subrange(77 + n, 85 + n) == spec_u64_to_le_bytes(p.timestamp as u64)
        }),
{
    lemma_auto_spec_u32_to_from_le_bytes();
    lemma_auto_spec_u64_to_from_le_bytes();
    let s = record_bytes(p);
    let n = encode_utf8(p.payment_id).len() as int;
    assert(s.subrange(0, 32) =~= p.payer);
    assert(s.subrange(32, 64) =~= p.recipient);
    assert(s.subrange(64, 72) =~= spec_u64_to_le_bytes(p.amount));
    assert(s.subrange(72, 76) =~= spec_u32_to_le_bytes(n as u32));
    assert(s.subrange(76, 76 + n) =~= encode_utf8(p.payment_id));
    assert(s.subrange(77 + n, 85 + n) =~= spec_u64_to_le_bytes(p.timestamp as u64));
}

/// Distinct records have distinct persisted forms.
pub proof fn lemma_record_bytes_injective(p: PaymentView, q: PaymentView)
    requires
        encodable(p),
        encodable(q),
        record_bytes(p) == record_bytes(q),
    ensures
        p == q,
{
    lemma_auto_spec_u64_to_from_le_bytes();
    lemma_record_layout(p);
    lemma_record_layout(q);
    let s = record_bytes(p);
    let n = encode_utf8(p.payment_id).len() as int;
    assert(encode_utf8(p.payment_id) == encode_utf8(q.payment_id));
    assert(decode_utf8(encode_utf8(p.payment_id)) == p.payment_id);
    assert(decode_utf8(encode_utf8(q.payment_id)) == q.payment_id);
    assert(spec_u64_from_le_bytes(spec_u64_to_le_bytes(p.amount)) == p.amount);
    assert(spec_u64_from_le_bytes(spec_u64_to_le_bytes(q.amount)) == q.amount);
    assert(spec_u64_from_le_bytes(spec_u64_to_le_bytes(p.timestamp as u64)) == p.timestamp as u64);
    assert(spec_u64_from_le_bytes(spec_u64_to_le_bytes(q.timestamp as u64)) == q.timestamp as u64);
    lemma_u64_i64_injective(p.timestamp, q.timestamp);
}

/// Reads 32 bytes starting at `at` as an identity.
fn read_key(data: &[u8], at: usize) -> (r: [u8; 32])
    requires
        at + 32 <= data@.len(),
    ensures
        r@ == data@.subrange(at as int, at + 32),
{
    let mut k: [u8; 32] = [0u8; 32];
    let len = data.len();
    let mut i: usize = 0;
    while i < 32
        invariant
            0 <= i <= 32,
            len == data@.len(),
            at + 32 <= data@.len(),
            k@.len() == 32,
            forall|j: int| 0 <= j < i ==> k@[j] == data@[at + j],
        decreases 32 - i,
    {
        k[i] = data[at + i];
        i = i + 1;
    }
    assert(k@ =~= data@.subrange(at as int, at + 32));
    k
}

/// The persisted form of a record.
pub fn encode_record(p: &Payment) -> (r: Vec<u8>)
    requires
        encodable(p@),
    ensures
        r@ == record_bytes(p@),
{
    let mut out = slice_to_vec(p.payer.as_slice());
    let mut part = slice_to_vec(p.recipient.as_slice());
    out.append(&mut part);
    let mut amount = u64_to_le_bytes(p.amount);
    out.append(&mut amount);
    let id = p.payment_id.as_str().as_bytes();
    let mut len = u32_to_le_bytes(id.len() as u32);
    out.append(&mut len);
    let mut id_bytes = slice_to_vec(id);
    out.append(&mut id_bytes);
    let tag: u8 = match p.status {
        PaymentStatus::Pending => 0,
        PaymentStatus::Completed => 1,
        PaymentStatus::Cancelled => 2,
    };
    out.push(tag);
    let mut time = u64_to_le_bytes(p.timestamp as u64);
    out.append(&mut time);
    assert(out@ =~= record_bytes(p@));
    out
}

/// Reads a record from its persisted form; `None` where the bytes are not
/// the persisted form of any record.
pub fn decode_record(data: &[u8]) -> (r: Option<Payment>)
    ensures
        r is Some <==> is_record(data@),
        r matches Some(p) ==> encodable(p@) && record_bytes(p@) == data@,
{
    proof {
        lemma_auto_spec_u32_to_from_le_bytes();
        lemma_auto_spec_u64_to_from_le_bytes();
    }
    if data.len() < RECORD_HEAD + 4 {
        proof {
            if is_record(data@) {
                let q = choose|q: PaymentView| encodable(q) && #[trigger] record_bytes(q) == data@;
                lemma_record_layout(q);
            }
        }
        return None;
    }
    let payer = read_key(data, 0);
    let recipient = read_key(data, 32);
    let amount = u64_from_le_bytes(slice_subrange(data, 64, 72));
    let n = u32_from_le_bytes(slice_subrange(data, 72, 76)) as usize;
    let rest = data.len() - (RECORD_HEAD + 4);
    if n > rest || rest - n != 9 {
        proof {
            if is_record(data@) {
                let q = choose|q: PaymentView| encodable(q) && #[trigger] record_bytes(q) == data@;
                lemma_record_layout(q);
            }
        }
        return None;
    }
    let id_bytes = slice_to_vec(slice_subrange(data, 76, 76 + n));
    let payment_id = match string_from_utf8(id_bytes) {
        Some(s) => s,
        None => {
            proof {
                if is_record(data@) {
                    let q = choose|q: PaymentView|
                        encodable(q) && #[trigger] record_bytes(q) == data@;
                    lemma_record_layout(q);
                }
            }
            return None;
        },
    };
    let status = match data[76 + n] {
        0 => PaymentStatus::Pending,
        1 => PaymentStatus::Completed,
        2 => PaymentStatus::Cancelled,
        _ => {
            proof {
                if is_record(data@) {
                    let q = choose|q: PaymentView|
                        encodable(q) && #[trigger] record_bytes(q) == data@;
                    lemma_record_layout(q);
                }
            }
            return None;
        },
    };
    let time = u64_from_le_bytes(slice_subrange(data, 77 + n, 85 + n));
    let timestamp = time as i64;
    let p = Payment { payer, recipient, amount, payment_id, status, timestamp };
    proof {
        let idb = data@.subrange(76, 76 + n as int);
        decode_utf8_encode_utf8(idb);
        lemma_i64_u64_round(time);
        assert(spec_u64_to_le_bytes(time) == data@.subrange(77 + n as int, 85 + n as int));
        assert(record_bytes(p@) =~= data@);
    }
    Some(p)
}

} // verus!
