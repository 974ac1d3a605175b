//! A 256-bit digest value.

use vstd::prelude::*;
use crate::bytes::{
    le_bytes, le_value, lemma_byte_range_values, lemma_le_bytes_len, lemma_le_bytes_of_value,
    lemma_le_value_bound, lemma_le_value_of_bytes, push_le_bytes, read_le,
};
use crate::digest::{sha256, sha256_digest, DIGEST_LEN};
use crate::hexcode::{
    ascii_codes, hex_decode, hex_decoded, hex_encode, hex_text, is_hex_chars, lemma_ascii_codes,
    lemma_ascii_encoding, lemma_hex_round_trip, nibble,
};
use vstd::string::{StringExecFns, StringSliceAdditionalSpecFns};

verus! {

/// A 256-bit value, held as the two 128-bit numbers that its first and its
/// last sixteen bytes spell in little-endian order.
#[derive(PartialEq, Eq, Structural, Clone, Copy, Debug)]
pub struct Hash(u128, u128);

/// Something with a canonical byte form, by which it is hashed.
pub trait Hashable {
    /// The canonical bytes of the value.
    spec fn canonical_bytes(&self) -> Seq<u8>;

    /// Writes out the canonical bytes of the value.
    fn bytes(&self) -> (out: Vec<u8>)
        ensures
            out@ == self.canonical_bytes(),
    ;

    /// Hashes the value by its canonical bytes.
    fn make_hash(&self) -> (h: Hash)
        ensures
            h == Hash::of(self.canonical_bytes()),
    {
        let raw = self.bytes();
        Hash::from_bytes(raw.as_slice())
    }
}

impl Default for Hash {
    /// The value whose 32 bytes are all zero.
    fn default() -> (h: Hash)
        ensures
            h == Hash::spec_zero(),
    {
        Hash(0, 0)
    }
}

impl View for Hash {
    type V = Seq<u8>;

    /// The 32 bytes of the value.
    closed spec fn view(&self) -> Seq<u8> {
        le_bytes(self.0 as nat, 16) + le_bytes(self.1 as nat, 16)
    }
}

impl Hash {
    /// The value whose bytes are `bytes`, for a sequence of 32 bytes.
    pub closed spec fn spec_from_raw(bytes: Seq<u8>) -> Hash
        recommends
            bytes.len() == 32,
    {
        Hash(le_value(bytes.subrange(0, 16)) as u128, le_value(bytes.subrange(16, 32)) as u128)
    }

    /// The value whose 32 bytes are all zero.
    pub closed spec fn spec_zero() -> Hash {
        Hash(0, 0)
    }

    /// The bytes of the zero value are 32 zeros.
    pub proof fn lemma_zero()
        ensures
            Hash::spec_zero()@ == Seq::new(32, |i: int| 0u8),
    {
        reveal_with_fuel(le_bytes, 17);
        assert(Hash::spec_zero()@ =~= Seq::new(32, |i: int| 0u8));
    }

    /// The value that hashing `data` gives: the one whose bytes are the
    /// SHA-256 digest of `data`.
    pub open spec fn of(data: Seq<u8>) -> Hash {
        Hash::spec_from_raw(sha256(data))
    }

    /// A value has 32 bytes, and is the value that its bytes spell.
    pub proof fn lemma_view(self)
        ensures
            self@.len() == 32,
            Hash::spec_from_raw(self@) == self,
    {
        let lo = le_bytes(self.0 as nat, 16);
        let hi = le_bytes(self.1 as nat, 16);
        lemma_le_bytes_len(self.0 as nat, 16);
        lemma_le_bytes_len(self.1 as nat, 16);
        assert(self@.subrange(0, 16) =~= lo);
        assert(self@.subrange(16, 32) =~= hi);
        lemma_byte_range_values();
        lemma_le_value_of_bytes(self.0 as nat, 16);
        lemma_le_value_of_bytes(self.1 as nat, 16);
    }

    /// Any 32 bytes are the bytes of the value that they spell.
    pub proof fn lemma_from_raw(bytes: Seq<u8>)
        requires
            bytes.len() == 32,
        ensures
            Hash::spec_from_raw(bytes)@ == bytes,
    {
        let lo = bytes.subrange(0, 16);
        let hi = bytes.subrange(16, 32);
        lemma_byte_range_values();
        lemma_le_value_bound(lo);
        lemma_le_value_bound(hi);
        lemma_le_bytes_of_value(lo);
        lemma_le_bytes_of_value(hi);
        assert(lo + hi =~= bytes);
    }

    /// Two values with the same bytes are the same value.
    pub proof fn lemma_view_injective(a: Hash, b: Hash)
        requires
            a@ == b@,
        ensures
            a == b,
    {
        a.lemma_view();
        b.lemma_view();
    }

    /// Packs 32 raw bytes into a value; any other length gives `None`.
    pub fn from_raw(bytes: &[u8]) -> (r: Option<Hash>)
        ensures
            bytes@.len() == 32 ==> r == Some(Hash::spec_from_raw(bytes@)),
            bytes@.len() == 32 ==> r.unwrap()@ == bytes@,
            bytes@.len() != 32 ==> r is None,
    {
        if bytes.len() != DIGEST_LEN {
            return None;
        }
        let lo = read_le(vstd::slice::slice_subrange(bytes, 0, 16));
        let hi = read_le(vstd::slice::slice_subrange(bytes, 16, 32));
        proof {
            Hash::lemma_from_raw(bytes@);
        }
        Some(Hash(lo, hi))
    }

    /// Hashes `data` with SHA-256.
    pub fn from_bytes(bytes: &[u8]) -> (h: Hash)
        ensures
            h == Hash::of(bytes@),
            h@ == sha256(bytes@),
    {
        let digest = sha256_digest(bytes);
        Hash::from_raw(digest.as_slice()).unwrap()
    }

    /// The 32 bytes of the value.
    pub fn bytes(&self) -> (out: Vec<u8>)
        ensures
            out@ == self@,
    {
        let mut out: Vec<u8> = Vec::new();
        push_le_bytes(&mut out, self.0, 16);
        push_le_bytes(&mut out, self.1, 16);
        out
    }

    /// The text that shows a value to a reader: the hexadecimal text of its
    /// first sixteen bytes, a space, and that of its last sixteen bytes.
    pub open spec fn spec_to_string(self) -> Seq<char> {
        hex_text(self@.subrange(0, 16)) + seq![' '] + hex_text(self@.subrange(16, 32))
    }

    /// Renders the value as two groups of 32 lower-case hexadecimal digits
    /// with a space between them.
    pub fn to_string(&self) -> (text: String)
        ensures
            text@ == self.spec_to_string(),
    {
        let mut lo: Vec<u8> = Vec::new();
        push_le_bytes(&mut lo, self.0, 16);
        let mut hi: Vec<u8> = Vec::new();
        push_le_bytes(&mut hi, self.1, 16);
        proof {
            lemma_le_bytes_len(self.0 as nat, 16);
            lemma_le_bytes_len(self.1 as nat, 16);
            assert(self@.subrange(0, 16) =~= lo@);
            assert(self@.subrange(16, 32) =~= hi@);
            reveal_strlit(" ");
            assert(" "@ =~= seq![' ']);
        }
        let mut text = hex_encode(lo.as_slice());
        text.append(" ");
        let second = hex_encode(hi.as_slice());
        text.append(second.as_str());
        text
    }

    /// Encodes the value for the wire: the hexadecimal text of its 32 bytes,
    /// 64 lower-case digits.
    pub fn to_hex(&self) -> (text: String)
        ensures
            text@ == hex_text(self@),
    {
        let raw = self.bytes();
        hex_encode(raw.as_slice())
    }

    /// The value that the wire text `text` stands for: `text` must be 64
    /// hexadecimal digits, in either case, and spells the 32 bytes of the value.
    pub open spec fn spec_from_hex(text: Seq<char>) -> Option<Hash> {
        if text.len() == 64 && is_hex_chars(text) {
            Some(Hash::spec_from_raw(hex_decoded(ascii_codes(text))))
        } else {
            None
        }
    }

    /// Decodes a value from the wire, without hashing anything: the result is
    /// the value whose bytes the text spells.
    pub fn from_hex(text: &str) -> (r: Option<Hash>)
        ensures
            r == Hash::spec_from_hex(text@),
    {
        let codes = text.as_bytes();
        match hex_decode(codes) {
            Ok(data) => {
                proof {
                    assert forall|i: int| 0 <= i < codes@.len() implies codes@[i] < 0x80 by {
                        assert(nibble(codes@[i]) is Some);
                    }
                    lemma_ascii_encoding(text@);
                }
                Hash::from_raw(data.as_slice())
            },
            Err(_) => {
                proof {
                    if is_hex_chars(text@) {
                        lemma_ascii_codes(text@);
                    }
                }
                None
            },
        }
    }

    /// Decoding the wire text of a value gives the value back.
    pub proof fn lemma_hex_wire_round_trip(self)
        ensures
            Hash::spec_from_hex(hex_text(self@)) == Some(self),
    {
        self.lemma_view();
        lemma_hex_round_trip(self@);
    }
}

} // verus!
