//! Blocks: timestamped records, each sealed by the hash of its own content
//! and linked to its predecessor by that predecessor's hash.

use vstd::prelude::*;
use vstd::string::{StringExecFns, StringSliceAdditionalSpecFns};
use vstd::utf8::encode_utf8;
use crate::bytes::{le_bytes, push_le_bytes};
use crate::clock::now;
use crate::hash::Hashable;
use crate::text::{decimal, push_decimal};

verus! {

/// What a block records. Time is counted in whole milliseconds since the
/// Unix epoch.
#[derive(Debug)]
pub struct Block {
    timestamp: u64,
    prev_hash: crate::hash::Hash,
    hash: crate::hash::Hash,
    payload: String,
}

/// The mathematical content of a block.
pub struct BlockView {
    pub timestamp: u64,
    pub prev_hash: crate::hash::Hash,
    pub hash: crate::hash::Hash,
    pub payload: Seq<char>,
}

impl View for Block {
    type V = BlockView;

    closed spec fn view(&self) -> BlockView {
        BlockView {
            timestamp: self.timestamp,
            prev_hash: self.prev_hash,
            hash: self.hash,
            payload: self.payload@,
        }
    }
}

impl BlockView {
    /// The bytes that a block is hashed by: the timestamp as eight
    /// little-endian bytes, the 32 bytes of the predecessor's hash, and the
    /// payload in UTF-8. The block's own hash is no part of them.
    pub open spec fn canonical_bytes(self) -> Seq<u8> {
        le_bytes(self.timestamp as nat, 8) + self.prev_hash@ + encode_utf8(self.payload)
    }

    /// The hash of the block's content.
    pub open spec fn digest(self) -> crate::hash::Hash {
        crate::hash::Hash::of(self.canonical_bytes())
    }

    /// Holds where the hash that the block stores is the hash of its content.
    pub open spec fn is_sealed(self) -> bool {
        self.hash == self.digest()
    }

    /// The sealed block with the given content.
    pub open spec fn sealed(
        timestamp: u64,
        prev_hash: crate::hash::Hash,
        payload: Seq<char>,
    ) -> BlockView {
        let content = BlockView { timestamp, prev_hash, hash: prev_hash, payload };
        BlockView { timestamp, prev_hash, hash: content.digest(), payload }
    }

    /// The payload of the genesis block.
    pub open spec fn genesis_payload() -> Seq<char> {
        "Genesis block"@
    }

    /// The genesis block: sealed, at the epoch, with a fixed payload, and
    /// linked to the hash of the single byte 1.
    pub open spec fn genesis() -> BlockView {
        BlockView::sealed(0, crate::hash::Hash::of(seq![1u8]), BlockView::genesis_payload())
    }

    /// The text that shows a block to a reader, one line for each field.
    pub open spec fn spec_to_string(self) -> Seq<char> {
        "Block -\n"@ + "Timestamp     : "@ + decimal(self.timestamp as nat) + "\n"@
            + "Previous hash : "@ + self.prev_hash.spec_to_string() + "\n"@
            + "Hash          : "@ + self.hash.spec_to_string() + "\n"@
            + "Data          : "@ + self.payload + "\n"@
    }

    /// A block is sealed exactly where it is the sealed block of its content.
    pub proof fn lemma_sealed(self)
        ensures
            self.is_sealed() <==> self == BlockView::sealed(
                self.timestamp,
                self.prev_hash,
                self.payload,
            ),
    {
    }

    /// Determinism: two sealed blocks with the same timestamp, link and
    /// payload store the same hash, and so are the same block.
    pub proof fn lemma_sealed_deterministic(a: BlockView, b: BlockView)
        requires
            a.is_sealed(),
            b.is_sealed(),
            a.timestamp == b.timestamp,
            a.prev_hash == b.prev_hash,
            a.payload == b.payload,
        ensures
            a.hash == b.hash,
            a == b,
    {
    }
}

impl Clone for Block {
    fn clone(&self) -> (copy: Block)
        ensures
            copy == *self,
    {
        Block {
            timestamp: self.timestamp,
            prev_hash: self.prev_hash,
            hash: self.hash,
            payload: self.payload.clone(),
        }
    }
}

impl Default for Block {
    /// The block at the epoch with zero hashes and an empty payload. It is
    /// not sealed.
    fn default() -> (block: Block)
        ensures
            block@ == (BlockView {
                timestamp: 0,
                prev_hash: crate::hash::Hash::spec_zero(),
                hash: crate::hash::Hash::spec_zero(),
                payload: Seq::empty(),
            }),
    {
        Block {
            timestamp: 0,
            prev_hash: crate::hash::Hash::default(),
            hash: crate::hash::Hash::default(),
            payload: String::new(),
        }
    }
}

impl PartialEq for Block {
    fn eq(&self, other: &Block) -> (same: bool) {
        self.timestamp == other.timestamp && self.prev_hash == other.prev_hash && self.hash
            == other.hash && self.payload == other.payload
    }
}

impl vstd::std_specs::cmp::PartialEqSpecImpl for Block {
    open spec fn obeys_eq_spec() -> bool {
        true
    }

    /// Two blocks are equal where all four fields are.
    open spec fn eq_spec(&self, other: &Block) -> bool {
        self@ == other@
    }
}

impl Eq for Block {

}

impl Hashable for Block {
    open spec fn canonical_bytes(&self) -> Seq<u8> {
        self@.canonical_bytes()
    }

    fn bytes(&self) -> (out: Vec<u8>) {
        let mut out: Vec<u8> = Vec::new();
        push_le_bytes(&mut out, self.timestamp as u128, 8);
        let mut link = self.prev_hash.bytes();
        out.append(&mut link);
        let mut data = self.payload.as_str().as_bytes_vec();
        out.append(&mut data);
        out
    }
}

impl Block {
    /// Makes the sealed block with the given content.
    pub fn new(timestamp: u64, prev_hash: crate::hash::Hash, payload: String) -> (block: Block)
        ensures
            block@ == BlockView::sealed(timestamp, prev_hash, payload@),
    {
        let hash = crate::hash::Hash::default();
        let mut block = Block { timestamp, prev_hash, hash, payload };
        block.hash = block.make_hash();
        block
    }

    /// Makes a block from its four fields as they are given, sealed or not.
    /// It serves to rebuild a block that was stored or sent, and to make
    /// blocks that validation must refuse.
    pub fn unchecked(
        timestamp: u64,
        prev_hash: crate::hash::Hash,
        hash: crate::hash::Hash,
        payload: String,
    ) -> (block: Block)
        ensures
            block@ == (BlockView { timestamp, prev_hash, hash, payload: payload@ }),
    {
        Block { timestamp, prev_hash, hash, payload }
    }

    /// Makes the genesis block, the same on every call.
    pub fn genesis() -> (block: Block)
        ensures
            block@ == BlockView::genesis(),
    {
        let seed: [u8; 1] = [1];
        assert(seed@ =~= seq![1u8]);
        Block::new(0, crate::hash::Hash::from_bytes(seed.as_slice()), "Genesis block".to_owned())
    }

    /// Makes the sealed block that follows `prev_block`, stamped with the
    /// current time; the system clock is read once.
    pub fn mine(prev_block: &Block, payload: String) -> (block: Block)
        ensures
            block@ == BlockView::sealed(block@.timestamp, prev_block@.hash, payload@),
    {
        let timestamp = now();
        Block::new(timestamp, prev_block.hash, payload)
    }

    /// Renders the block for a reader, one line for each field.
    pub fn to_string(&self) -> (text: String)
        ensures
            text@ == self@.spec_to_string(),
    {
        let mut text = "Block -\n".to_owned();
        text.append("Timestamp     : ");
        push_decimal(&mut text, self.timestamp);
        text.append("\n");
        text.append("Previous hash : ");
        text.append(self.prev_hash.to_string().as_str());
        text.append("\n");
        text.append("Hash          : ");
        text.append(self.hash.to_string().as_str());
        text.append("\n");
        text.append("Data          : ");
        text.append(self.payload.as_str());
        text.append("\n");
        text
    }

    /// The hash of the block that this one follows.
    pub fn get_prev_hash(&self) -> (h: crate::hash::Hash)
        ensures
            h == self@.prev_hash,
    {
        self.prev_hash
    }

    /// The time of the block, in milliseconds since the epoch.
    pub fn get_timestamp(&self) -> (t: u64)
        ensures
            t == self@.timestamp,
    {
        self.timestamp
    }

    /// The payload of the block.
    pub fn get_payload(&self) -> (p: &String)
        ensures
            p@ == self@.payload,
    {
        &self.payload
    }

    /// The hash that the block stores as its own.
    pub fn get_hash(&self) -> (h: crate::hash::Hash)
        ensures
            h == self@.hash,
    {
        self.hash
    }
}

} // verus!
