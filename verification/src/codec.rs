//! Serialization of validation contexts at the storage boundary.
//!
//! A context is stored as a compact self-describing byte string: one tag
//! byte, then each identifier as sixteen little-endian bytes. Decoding
//! validates the tag and the exact length, and round-trips every encoded
//! context.

use vstd::prelude::*;

use crate::validations::ValidationContext;

verus! {

/// Byte `k` of the little-endian encoding of `x`.
pub open spec fn le_byte(x: u128, k: int) -> u8 {
    ((x >> ((8 * k) as u128)) & 0xff) as u8
}

/// The sixteen little-endian bytes of `x`.
pub open spec fn le_bytes(x: u128) -> Seq<u8> {
    Seq::new(16, |k: int| le_byte(x, k))
}

/// Folds bytes `off + k .. off + 16` of `s` into `acc`, each at its
/// little-endian position.
pub open spec fn le_value_acc(s: Seq<u8>, off: int, k: int, acc: u128) -> u128
    decreases 16 - k,
{
    if k < 0 || k >= 16 {
        acc
    } else {
        le_value_acc(s, off, k + 1, acc | ((s[off + k] as u128) << ((8 * k) as u128)))
    }
}

/// The value the sixteen bytes at `off` of `s` encode.
pub open spec fn le_value(s: Seq<u8>, off: int) -> u128 {
    le_value_acc(s, off, 0, 0)
}

/// Tag byte of a stored `VerifyEmail` context.
pub open spec fn tag_verify_email() -> u8 {
    1
}

/// Tag byte of a stored `AddAccount` context.
pub open spec fn tag_add_account() -> u8 {
    2
}

/// The stored form of a context.
pub open spec fn encoded(ctx: ValidationContext) -> Seq<u8> {
    match ctx {
        ValidationContext::VerifyEmail { user_id } => seq![tag_verify_email()] + le_bytes(user_id),
        ValidationContext::AddAccount { account_id, user_id } => seq![tag_add_account()]
            + le_bytes(account_id) + le_bytes(user_id),
    }
}

/// What a stored byte string decodes to; `None` when it is corrupt.
pub open spec fn decoded(s: Seq<u8>) -> Option<ValidationContext> {
    if s.len() == 17 && s[0] == tag_verify_email() {
        Some(ValidationContext::VerifyEmail { user_id: le_value(s, 1) })
    } else if s.len() == 33 && s[0] == tag_add_account() {
        Some(
            ValidationContext::AddAccount {
                account_id: le_value(s, 1),
                user_id: le_value(s, 17),
            },
        )
    } else {
        None
    }
}

/// Reassembling the sixteen little-endian bytes of `x` gives back `x`.
proof fn lemma_le_round_trip(s: Seq<u8>, off: int, x: u128)
    requires
        0 <= off,
        off + 16 <= s.len(),
        forall|k: int| 0 <= k < 16 ==> s[off + k] == le_byte(x, k),
    ensures
        le_value(s, off) == x,
{
    reveal_with_fuel(le_value_acc, 18);
    assert(le_value(s, off) == 0 | ((s[off + 0] as u128) << 0u128) | ((s[off + 1] as u128) << 8u128) | ((s[off + 2] as u128) << 16u128) | ((s[off + 3] as u128) << 24u128) | ((s[off + 4] as u128) << 32u128) | ((s[off + 5] as u128) << 40u128) | ((s[off + 6] as u128) << 48u128) | ((s[off + 7] as u128) << 56u128) | ((s[off + 8] as u128) << 64u128) | ((s[off + 9] as u128) << 72u128) | ((s[off + 10] as u128) << 80u128) | ((s[off + 11] as u128) << 88u128) | ((s[off + 12] as u128) << 96u128) | ((s[off + 13] as u128) << 104u128) | ((s[off + 14] as u128) << 112u128) | ((s[off + 15] as u128) << 120u128));
    assert(le_value(s, off) == 0 | ((le_byte(x, 0) as u128) << 0u128) | ((le_byte(x, 1) as u128) << 8u128) | ((le_byte(x, 2) as u128) << 16u128) | ((le_byte(x, 3) as u128) << 24u128) | ((le_byte(x, 4) as u128) << 32u128) | ((le_byte(x, 5) as u128) << 40u128) | ((le_byte(x, 6) as u128) << 48u128) | ((le_byte(x, 7) as u128) << 56u128) | ((le_byte(x, 8) as u128) << 64u128) | ((le_byte(x, 9) as u128) << 72u128) | ((le_byte(x, 10) as u128) << 80u128) | ((le_byte(x, 11) as u128) << 88u128) | ((le_byte(x, 12) as u128) << 96u128) | ((le_byte(x, 13) as u128) << 104u128) | ((le_byte(x, 14) as u128) << 112u128) | ((le_byte(x, 15) as u128) << 120u128));
    assert(x == 0 | (((x >> 0u128) & 0xff) as u8 as u128) << 0u128 | (((x >> 8u128) & 0xff) as u8 as u128) << 8u128 | (((x >> 16u128) & 0xff) as u8 as u128) << 16u128 | (((x >> 24u128) & 0xff) as u8 as u128) << 24u128 | (((x >> 32u128) & 0xff) as u8 as u128) << 32u128 | (((x >> 40u128) & 0xff) as u8 as u128) << 40u128 | (((x >> 48u128) & 0xff) as u8 as u128) << 48u128 | (((x >> 56u128) & 0xff) as u8 as u128) << 56u128 | (((x >> 64u128) & 0xff) as u8 as u128) << 64u128 | (((x >> 72u128) & 0xff) as u8 as u128) << 72u128 | (((x >> 80u128) & 0xff) as u8 as u128) << 80u128 | (((x >> 88u128) & 0xff) as u8 as u128) << 88u128 | (((x >> 96u128) & 0xff) as u8 as u128) << 96u128 | (((x >> 104u128) & 0xff) as u8 as u128) << 104u128 | (((x >> 112u128) & 0xff) as u8 as u128) << 112u128 | (((x >> 120u128) & 0xff) as u8 as u128) << 120u128) by (bit_vector);
}

/// Decoding undoes encoding: the storage format loses nothing.
pub proof fn lemma_context_round_trip(ctx: ValidationContext)
    ensures
        decoded(encoded(ctx)) == Some(ctx),
{
    let s = encoded(ctx);
    match ctx {
        ValidationContext::VerifyEmail { user_id } => {
            assert(s.len() == 17);
            assert forall|k: int| 0 <= k < 16 implies s[1 + k] == le_byte(user_id, k) by {
                assert(s[1 + k] == le_bytes(user_id)[k]);
            }
            lemma_le_round_trip(s, 1, user_id);
        },
        ValidationContext::AddAccount { account_id, user_id } => {
            assert(s.len() == 33);
            assert forall|k: int| 0 <= k < 16 implies s[1 + k] == le_byte(account_id, k) by {
                assert(s[1 + k] == le_bytes(account_id)[k]);
            }
            assert forall|k: int| 0 <= k < 16 implies s[17 + k] == le_byte(user_id, k) by {
                assert(s[17 + k] == le_bytes(user_id)[k]);
            }
            lemma_le_round_trip(s, 1, account_id);
            lemma_le_round_trip(s, 17, user_id);
            assert(s[0] == tag_add_account());
        },
    }
}

/// Appends the sixteen little-endian bytes of `x`.
fn push_le(out: &mut Vec<u8>, x: u128)
    ensures
        final(out)@ == old(out)@ + le_bytes(x),
{
    let ghost base = out@;
    let mut k: usize = 0;
    proof {
        assert(base + le_bytes(x).take(0) =~= base);
    }
    while k < 16
        invariant
            0 <= k <= 16,
            out@ == base + le_bytes(x).take(k as int),
        decreases 16 - k,
    {
        let sh: u128 = 8 * (k as u128);
        let b: u8 = ((x >> sh) & 0xff) as u8;
        out.push(b);
        proof {
            assert(le_bytes(x).take(k as int + 1) =~= le_bytes(x).take(k as int).push(
                le_byte(x, k as int),
            ));
            assert(b == le_byte(x, k as int));
            assert(out@ =~= base + le_bytes(x).take(k as int + 1));
        }
        k += 1;
    }
    proof {
        assert(le_bytes(x).take(16) =~= le_bytes(x));
    }
}

/// Reads the value of the sixteen little-endian bytes at `off`.
fn read_le(bytes: &Vec<u8>, off: usize) -> (x: u128)
    requires
        off + 16 <= bytes@.len(),
    ensures
        x == le_value(bytes@, off as int),
{
    let n = bytes.len();
    let mut acc: u128 = 0;
    let mut k: usize = 0;
    while k < 16
        invariant
            0 <= k <= 16,
            off + 16 <= n,
            n == bytes@.len(),
            le_value_acc(bytes@, off as int, k as int, acc) == le_value(bytes@, off as int),
        decreases 16 - k,
    {
        let sh: u128 = 8 * (k as u128);
        acc = acc | ((bytes[off + k] as u128) << sh);
        k += 1;
    }
    acc
}

/// Serializes a context into its storage bytes.
pub fn encode_context(ctx: &ValidationContext) -> (r: Vec<u8>)
    ensures
        r@ == encoded(*ctx),
{
    let mut out: Vec<u8> = Vec::new();
    match ctx {
        ValidationContext::VerifyEmail { user_id } => {
            out.push(1);
            push_le(&mut out, *user_id);
            proof {
                assert(out@ =~= encoded(*ctx));
            }
        },
        ValidationContext::AddAccount { account_id, user_id } => {
            out.push(2);
            push_le(&mut out, *account_id);
            push_le(&mut out, *user_id);
            proof {
                assert(out@ =~= encoded(*ctx));
            }
        },
    }
    out
}

/// Parses storage bytes back into a context; `None` when corrupt.
pub fn decode_context(bytes: &Vec<u8>) -> (r: Option<ValidationContext>)
    ensures
        r == decoded(bytes@),
{
    let n = bytes.len();
    if n == 17 && bytes[0] == 1 {
        Some(ValidationContext::VerifyEmail { user_id: read_le(bytes, 1) })
    } else if n == 33 && bytes[0] == 2 {
        Some(
            ValidationContext::AddAccount {
                account_id: read_le(bytes, 1),
                user_id: read_le(bytes, 17),
            },
        )
    } else {
        None
    }
}

} // verus!
