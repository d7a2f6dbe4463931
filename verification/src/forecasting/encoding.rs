//! The ledger's XDR encoding of the values that identifiers are derived from.
use crate::common::Bytes32;
use vstd::prelude::*;

verus! {

/// `n` written in `width` bytes, most significant first.
pub open spec fn be_bytes(n: nat, width: nat) -> Seq<u8>
    decreases width,
{
    if width == 0 {
        Seq::empty()
    } else {
        be_bytes(n / 256, (width - 1) as nat).push((n % 256) as u8)
    }
}

/// The UTF-8 encoding of a character.
pub open spec fn utf8_char(c: char) -> Seq<u8> {
    let n = c as nat;
    if n < 0x80 {
        seq![n as u8]
    } else if n < 0x800 {
        seq![(0xC0 + n / 0x40) as u8, (0x80 + n % 0x40) as u8]
    } else if n < 0x10000 {
        seq![(0xE0 + n / 0x1000) as u8, (0x80 + n / 0x40 % 0x40) as u8, (0x80 + n % 0x40) as u8]
    } else {
        seq![
            (0xF0 + n / 0x40000) as u8,
            (0x80 + n / 0x1000 % 0x40) as u8,
            (0x80 + n / 0x40 % 0x40) as u8,
            (0x80 + n % 0x40) as u8,
        ]
    }
}

/// The UTF-8 encoding of a text.
pub open spec fn utf8(s: Seq<char>) -> Seq<u8>
    decreases s.len(),
{
    if s.len() == 0 {
        Seq::empty()
    } else {
        utf8(s.drop_last()) + utf8_char(s.last())
    }
}

/// The zero bytes that bring `len` bytes up to a multiple of four.
pub open spec fn xdr_padding(len: nat) -> Seq<u8> {
    Seq::new(((4 - len % 4) % 4) as nat, |i: int| 0u8)
}

/// A ledger string: its tag, its length in bytes, its UTF-8 bytes, padded.
pub open spec fn xdr_string(s: Seq<char>) -> Seq<u8> {
    seq![0u8, 0, 0, 14] + be_bytes(utf8(s).len(), 4) + utf8(s) + xdr_padding(utf8(s).len())
}

/// A ledger unsigned 64-bit integer: its tag and its eight bytes.
pub open spec fn xdr_u64(n: u64) -> Seq<u8> {
    seq![0u8, 0, 0, 5] + be_bytes(n as nat, 8)
}

/// A ledger byte string holding an identifier's 32 bytes, most significant first.
pub open spec fn xdr_id(id: Bytes32) -> Seq<u8> {
    seq![0u8, 0, 0, 13, 0, 0, 0, 32] + be_bytes(id.hi as nat, 16) + be_bytes(id.lo as nat, 16)
}

/// A ledger vector of two encoded values.
pub open spec fn xdr_pair(a: Seq<u8>, b: Seq<u8>) -> Seq<u8> {
    seq![0u8, 0, 0, 16, 0, 0, 0, 1, 0, 0, 0, 2] + a + b
}

/// A ledger vector of three encoded values.
pub open spec fn xdr_triple(a: Seq<u8>, b: Seq<u8>, c: Seq<u8>) -> Seq<u8> {
    seq![0u8, 0, 0, 16, 0, 0, 0, 1, 0, 0, 0, 3] + a + b + c
}

/// A number written in `width` bytes takes `width` bytes.
pub proof fn lemma_be_bytes_len(n: nat, width: nat)
    ensures
        be_bytes(n, width).len() == width,
    decreases width,
{
    if width > 0 {
        lemma_be_bytes_len(n / 256, (width - 1) as nat);
    }
}

/// UTF-8 takes at most four bytes for each character.
pub proof fn lemma_utf8_len(s: Seq<char>)
    ensures
        utf8(s).len() <= 4 * s.len(),
    decreases s.len(),
{
    if s.len() > 0 {
        lemma_utf8_len(s.drop_last());
    }
}

/// A ledger string takes at most four bytes for each character and twelve more.
pub proof fn lemma_xdr_string_len(s: Seq<char>)
    ensures
        xdr_string(s).len() <= 4 * s.len() + 11,
{
    lemma_utf8_len(s);
    lemma_be_bytes_len(utf8(s).len(), 4);
}

/// Sizes of the encoded integer and identifier.
pub proof fn lemma_fixed_lens(n: u64, id: Bytes32)
    ensures
        xdr_u64(n).len() == 12,
        xdr_id(id).len() == 40,
{
    lemma_be_bytes_len(n as nat, 8);
    lemma_be_bytes_len(id.hi as nat, 16);
    lemma_be_bytes_len(id.lo as nat, 16);
}

} // verus!
