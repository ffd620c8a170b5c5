use vstd::prelude::*;
use vstd::utf8::{decode_utf8, encode_utf8, is_ascii_chars, valid_utf8};

use crate::error::TokenError;

verus! {

/// The lowest `n` bytes of `v`, least significant first.
pub open spec fn le_bytes_of(v: nat, n: nat) -> Seq<u8>
    decreases n,
{
    if n == 0 {
        Seq::empty()
    } else {
        seq![(v % 256) as u8] + le_bytes_of(v / 256, (n - 1) as nat)
    }
}

/// The sixteen little-endian bytes of a 128-bit value.
pub open spec fn le_bytes_spec(v: u128) -> Seq<u8> {
    le_bytes_of(v as nat, 16)
}

/// The bytes of `s` that are not zero, in their order.
pub open spec fn nonzero_bytes(s: Seq<u8>) -> Seq<u8>
    decreases s.len(),
{
    if s.len() == 0 {
        Seq::empty()
    } else if s.last() == 0 {
        nonzero_bytes(s.drop_last())
    } else {
        nonzero_bytes(s.drop_last()).push(s.last())
    }
}

/// The text bytes that a packed name or symbol carries: its little-endian
/// bytes with every zero byte removed, wherever it stands.
pub open spec fn packed_text_bytes(v: u128) -> Seq<u8> {
    nonzero_bytes(le_bytes_spec(v))
}

/// The text that a packed name or symbol decodes to, if it is UTF-8.
pub open spec fn packed_text(v: u128) -> Option<Seq<char>> {
    if valid_utf8(packed_text_bytes(v)) {
        Some(decode_utf8(packed_text_bytes(v)))
    } else {
        None
    }
}

/// The value whose little-endian bytes are `b`.
pub open spec fn packed(b: Seq<u8>) -> nat
    decreases b.len(),
{
    if b.len() == 0 {
        0
    } else {
        b[0] as nat + 256 * packed(b.drop_first())
    }
}

/// `256` to the power `n`.
pub open spec fn pow256(n: nat) -> nat
    decreases n,
{
    if n == 0 {
        1
    } else {
        256 * pow256((n - 1) as nat)
    }
}

/// `n` zero bytes.
pub open spec fn zero_bytes(n: nat) -> Seq<u8> {
    Seq::new(n, |i: int| 0u8)
}

/// Packing `b` stays below `256` to the power of its length.
proof fn lemma_packed_bound(b: Seq<u8>)
    ensures
        packed(b) < pow256(b.len()),
    decreases b.len(),
{
    if b.len() > 0 {
        let p = packed(b.drop_first());
        let q = pow256(b.drop_first().len());
        lemma_packed_bound(b.drop_first());
        assert(b[0] as nat + 256 * p < 256 * q) by (nonlinear_arith)
            requires
                b[0] < 256,
                p < q,
        ;
    }
}

/// Reading `n` bytes of a packed `b` gives `b` and then zeros.
proof fn lemma_le_bytes_of_packed(b: Seq<u8>, n: nat)
    requires
        b.len() <= n,
    ensures
        le_bytes_of(packed(b), n) == b + zero_bytes((n - b.len()) as nat),
    decreases n,
{
    if n > 0 {
        if b.len() == 0 {
            lemma_le_bytes_of_packed(b, (n - 1) as nat);
            assert(le_bytes_of(0, n) =~= b + zero_bytes(n));
        } else {
            let rest = b.drop_first();
            vstd::arithmetic::div_mod::lemma_fundamental_div_mod_converse(
                packed(b) as int,
                256,
                packed(rest) as int,
                b[0] as int,
            );
            lemma_le_bytes_of_packed(rest, (n - 1) as nat);
            assert(le_bytes_of(packed(b), n) =~= b + zero_bytes((n - b.len()) as nat));
        }
    } else {
        assert(b + zero_bytes(0) =~= b);
    }
}

/// Trailing zero bytes leave the kept bytes as they are.
proof fn lemma_nonzero_bytes_padding(b: Seq<u8>, k: nat)
    ensures
        nonzero_bytes(b + zero_bytes(k)) == nonzero_bytes(b),
    decreases k,
{
    if k > 0 {
        let shorter = b + zero_bytes((k - 1) as nat);
        assert((b + zero_bytes(k)).drop_last() =~= shorter);
        lemma_nonzero_bytes_padding(b, (k - 1) as nat);
    } else {
        assert(b + zero_bytes(0) =~= b);
    }
}

/// Packing round trip: up to sixteen bytes packed little-endian fit in a
/// 128-bit value, and decoding that value gives them back with every zero
/// byte dropped (so "A\0C" comes back as "AC").
pub proof fn lemma_packed_round_trip(b: Seq<u8>)
    requires
        b.len() <= 16,
    ensures
        packed(b) <= u128::MAX,
        packed_text_bytes(packed(b) as u128) == nonzero_bytes(b),
{
    lemma_packed_bound(b);
    lemma_pow256_monotone(b.len(), 16);
    reveal_with_fuel(pow256, 17);
    assert(pow256(16) == 0x1_0000_0000_0000_0000_0000_0000_0000_0000);
    lemma_le_bytes_of_packed(b, 16);
    lemma_nonzero_bytes_padding(b, (16 - b.len()) as nat);
}

/// Bytes none of which is zero are all kept.
proof fn lemma_nonzero_bytes_all_kept(b: Seq<u8>)
    requires
        forall|i: int| 0 <= i < b.len() ==> b[i] != 0,
    ensures
        nonzero_bytes(b) == b,
    decreases b.len(),
{
    if b.len() > 0 {
        lemma_nonzero_bytes_all_kept(b.drop_last());
        assert(b.drop_last().push(b.last()) =~= b);
    }
}

/// Text round trip: an ASCII text of at most sixteen characters, none of
/// them NUL, packed little-endian into a 128-bit value decodes back to itself.
pub proof fn lemma_ascii_text_round_trip(t: Seq<char>)
    requires
        t.len() <= 16,
        is_ascii_chars(t),
        forall|i: int| 0 <= i < t.len() ==> t[i] != '\0',
    ensures
        packed(encode_utf8(t)) <= u128::MAX,
        packed_text(packed(encode_utf8(t)) as u128) == Some(t),
{
    let b = encode_utf8(t);
    vstd::utf8::is_ascii_chars_encode_utf8(t);
    vstd::utf8::is_ascii_chars_nat_bound(t);
    assert forall|i: int| 0 <= i < b.len() implies b[i] != 0 by {
        assert(t[i] as u8 == b[i]);
        assert((t[i] as nat) < 128);
        assert(t[i] as u32 != 0);
    }
    lemma_packed_round_trip(b);
    lemma_nonzero_bytes_all_kept(b);
    vstd::utf8::encode_utf8_valid_utf8(t);
    vstd::utf8::encode_utf8_decode_utf8(t);
}

/// Powers of `256` grow with the exponent.
proof fn lemma_pow256_monotone(m: nat, n: nat)
    requires
        m <= n,
    ensures
        pow256(m) <= pow256(n),
    decreases n,
{
    if m < n {
        lemma_pow256_monotone(m, (n - 1) as nat);
    }
}

/// The sixteen little-endian bytes of `v`.
pub fn le_bytes(v: u128) -> (r: Vec<u8>)
    ensures
        r@ == le_bytes_spec(v),
{
    let mut out: Vec<u8> = Vec::new();
    let mut x: u128 = v;
    let mut i: usize = 0;
    while i < 16
        invariant
            i <= 16,
            out@ + le_bytes_of(x as nat, (16 - i) as nat) == le_bytes_spec(v),
        decreases 16 - i,
    {
        let b: u8 = (x % 256) as u8;
        proof {
            let rest = le_bytes_of((x / 256) as nat, (16 - i - 1) as nat);
            assert(le_bytes_of(x as nat, (16 - i) as nat) == seq![b] + rest);
            assert(out@.push(b) + rest =~= out@ + (seq![b] + rest));
        }
        out.push(b);
        x = x / 256;
        i = i + 1;
    }
    assert(out@ + le_bytes_of(x as nat, 0) =~= out@);
    out
}

/// Relies on `String::from_utf8`: it accepts exactly the byte strings that
/// are valid UTF-8, and the string it returns holds the characters they encode.
#[verifier::external_body]
fn string_from_utf8(bytes: Vec<u8>) -> (r: Option<String>)
    ensures
        r is Some <==> valid_utf8(bytes@),
        r matches Some(s) ==> s@ == decode_utf8(bytes@),
{
    String::from_utf8(bytes).ok()
}

/// Decodes a packed name or symbol: the little-endian bytes of `v` with all
/// zero bytes dropped (padding, not a terminator), read as UTF-8 text.
pub fn trim(v: u128) -> (r: Result<String, TokenError>)
    ensures
        match r {
            Ok(s) => packed_text(v) == Some(s@),
            Err(e) => packed_text(v) is None && e == TokenError::InvalidUtf8,
        },
{
    let bytes = le_bytes(v);
    let mut kept: Vec<u8> = Vec::new();
    let mut i: usize = 0;
    while i < bytes.len()
        invariant
            i <= bytes.len(),
            kept@ == nonzero_bytes(bytes@.take(i as int)),
        decreases bytes.len() - i,
    {
        let b = bytes[i];
        assert(bytes@.take(i + 1).drop_last() =~= bytes@.take(i as int));
        if b != 0 {
            kept.push(b);
        }
        i = i + 1;
    }
    assert(bytes@.take(bytes.len() as int) =~= bytes@);
    match string_from_utf8(kept) {
        Some(s) => Ok(s),
        None => Err(TokenError::InvalidUtf8),
    }
}

} // verus!
