//! Chains of blocks: growth, validation, and the choice between two chains.

use vstd::prelude::*;
use vstd::string::StringExecFns;
use crate::block::{Block, BlockView};
use crate::hash::Hashable;

verus! {

/// Why a chain could not be extended.
#[derive(Debug, PartialEq, Eq, Structural, Clone, Copy)]
pub enum MiningError {
    /// The chain is empty: there is no block to build upon.
    NoPrev,
}

/// The first fault that validation finds in a chain.
#[derive(Debug, PartialEq, Eq, Structural, Clone, Copy)]
pub enum ValidationError {
    /// The chain holds no block.
    EmptyChain,
    /// The first block is not the genesis block.
    BadGenesisBlock,
    /// A block's stored hash is not the hash of its content.
    InvalidHash,
    /// A block's link is not the hash that its predecessor stores.
    InvalidPrevHash,
}

/// An ordered sequence of blocks.
pub struct Chain {
    blocks: Vec<Block>,
}

/// The contents of a sequence of blocks.
pub open spec fn views(blocks: Seq<Block>) -> Seq<BlockView> {
    blocks.map_values(|b: Block| b@)
}

impl View for Chain {
    type V = Seq<BlockView>;

    closed spec fn view(&self) -> Seq<BlockView> {
        views(self.blocks@)
    }
}

/// What checking a block against its predecessor finds: the link is judged
/// first, the block's own hash second.
pub open spec fn pair_verdict(previous: BlockView, current: BlockView) -> Result<
    (),
    ValidationError,
> {
    if previous.hash != current.prev_hash {
        Err(ValidationError::InvalidPrevHash)
    } else if !current.is_sealed() {
        Err(ValidationError::InvalidHash)
    } else {
        Ok(())
    }
}

/// What checking each block from index `from` on against its predecessor
/// finds: the verdict on the first pair that has a fault.
pub open spec fn scan_verdict(blocks: Seq<BlockView>, from: int) -> Result<(), ValidationError>
    decreases blocks.len() - from,
{
    if from < 1 || from >= blocks.len() {
        Ok(())
    } else if pair_verdict(blocks[from - 1], blocks[from]) is Err {
        pair_verdict(blocks[from - 1], blocks[from])
    } else {
        scan_verdict(blocks, from + 1)
    }
}

/// What validation finds: an empty chain, else a first block that is not the
/// genesis block, else the first fault among the adjacent pairs in order.
pub open spec fn chain_verdict(blocks: Seq<BlockView>) -> Result<(), ValidationError> {
    if blocks.len() == 0 {
        Err(ValidationError::EmptyChain)
    } else if blocks[0] != BlockView::genesis() {
        Err(ValidationError::BadGenesisBlock)
    } else {
        scan_verdict(blocks, 1)
    }
}

/// Holds where each block but the last is followed by one that links to it.
pub open spec fn is_linked(blocks: Seq<BlockView>) -> bool {
    forall|i: int| 0 <= i < blocks.len() - 1 ==> (#[trigger] blocks[i]).hash == blocks[i + 1].prev_hash
}

/// Holds where the chain starts with the genesis block, each later block
/// links to the one before it, and each later block is sealed.
pub open spec fn is_valid(blocks: Seq<BlockView>) -> bool {
    &&& blocks.len() > 0
    &&& blocks[0] == BlockView::genesis()
    &&& forall|i: int| 1 <= i < blocks.len() ==> (#[trigger] pair_verdict(blocks[i - 1], blocks[i])) is Ok
}

/// What a chain holds once it has been offered a competing chain: its own
/// blocks, followed by the competing chain's blocks beyond its own length
/// where the competing chain is longer and valid.
pub open spec fn accepted(ours: Seq<BlockView>, theirs: Seq<BlockView>) -> Seq<BlockView> {
    if theirs.len() > ours.len() && chain_verdict(theirs) is Ok {
        ours + theirs.subrange(ours.len() as int, theirs.len() as int)
    } else {
        ours
    }
}

/// The answer to an offered chain: success for one that is no longer than
/// ours, else what validation finds in it.
pub open spec fn accept_verdict(ours: Seq<BlockView>, theirs: Seq<BlockView>) -> Result<
    (),
    ValidationError,
> {
    if theirs.len() <= ours.len() {
        Ok(())
    } else {
        chain_verdict(theirs)
    }
}

/// The text that shows a chain to a reader: the text of each block in order,
/// each followed by an empty line.
pub open spec fn chain_text(blocks: Seq<BlockView>) -> Seq<char>
    decreases blocks.len(),
{
    if blocks.len() == 0 {
        Seq::empty()
    } else {
        chain_text(blocks.drop_last()) + blocks.last().spec_to_string() + "\n"@
    }
}

impl Default for Chain {
    /// The chain that holds the genesis block alone.
    fn default() -> (chain: Chain)
        ensures
            chain@ == seq![BlockView::genesis()],
            is_valid(chain@),
            is_linked(chain@),
    {
        let mut blocks: Vec<Block> = Vec::new();
        blocks.push(Block::genesis());
        assert(views(blocks@) =~= seq![BlockView::genesis()]);
        Chain { blocks }
    }
}

impl Chain {
    /// Makes a chain of the given blocks as they are, valid or not.
    pub fn from_blocks(blocks: Vec<Block>) -> (chain: Chain)
        ensures
            chain@ == views(blocks@),
    {
        Chain { blocks }
    }

    /// Mines a block with the given payload on top of the last block and
    /// appends it. An empty chain has no last block and is left as it is.
    pub fn add_block(&mut self, payload: String) -> (r: Result<(), MiningError>)
        ensures
            old(self)@.len() == 0 ==> final(self)@ == old(self)@ && r == Err::<(), MiningError>(
                MiningError::NoPrev,
            ),
            old(self)@.len() > 0 ==> r is Ok && final(self)@ == old(self)@.push(
                BlockView::sealed(
                    final(self)@.last().timestamp,
                    old(self)@.last().hash,
                    payload@,
                ),
            ),
            is_linked(old(self)@) ==> is_linked(final(self)@),
            is_valid(old(self)@) ==> is_valid(final(self)@),
    {
        let n = self.blocks.len();
        if n == 0 {
            return Err(MiningError::NoPrev);
        }
        let block = Block::mine(&self.blocks[n - 1], payload);
        self.blocks.push(block);
        proof {
            assert(self@ =~= old(self)@.push(block@));
            if is_linked(old(self)@) {
                lemma_push_keeps_linked(old(self)@, block@);
            }
            if is_valid(old(self)@) {
                lemma_push_keeps_valid(old(self)@, block@);
            }
        }
        Ok(())
    }

    /// A copy of the blocks, in order.
    pub fn get_blocks(&self) -> (blocks: Vec<Block>)
        ensures
            views(blocks@) == self@,
    {
        let blocks = self.blocks.clone();
        assert(blocks@ =~= self.blocks@);
        blocks
    }

    /// The number of blocks.
    pub fn len(&self) -> (n: usize)
        ensures
            n == self@.len(),
    {
        self.blocks.len()
    }

    /// Judges a block against its predecessor, given the hash that was
    /// recomputed from the block's content.
    pub fn judge_neighbour_block(
        previous: &Block,
        current: &Block,
        recomputed: crate::hash::Hash,
    ) -> (r: Result<(), ValidationError>)
        ensures
            r == if previous@.hash != current@.prev_hash {
                Err::<(), ValidationError>(ValidationError::InvalidPrevHash)
            } else if current@.hash != recomputed {
                Err(ValidationError::InvalidHash)
            } else {
                Ok(())
            },
    {
        if previous.get_hash() != current.get_prev_hash() {
            return Err(ValidationError::InvalidPrevHash);
        }
        if current.get_hash() != recomputed {
            return Err(ValidationError::InvalidHash);
        }
        Ok(())
    }

    /// Checks a block against its predecessor: first that it links to the
    /// predecessor's hash, then that its own hash is that of its content.
    pub fn validate_neighbour_block(previous: &Block, current: &Block) -> (r: Result<
        (),
        ValidationError,
    >)
        ensures
            r == pair_verdict(previous@, current@),
    {
        Chain::judge_neighbour_block(previous, current, current.make_hash())
    }

    /// Checks the chain front to back and reports the first fault; the chain
    /// is not changed.
    pub fn validate(&self) -> (r: Result<(), ValidationError>)
        ensures
            r == chain_verdict(self@),
            r is Ok <==> is_valid(self@),
    {
        proof {
            lemma_verdict_ok_iff_valid(self@);
        }
        let n = self.blocks.len();
        if n == 0 {
            return Err(ValidationError::EmptyChain);
        }
        let genesis = Block::genesis();
        if !self.blocks[0].eq(&genesis) {
            return Err(ValidationError::BadGenesisBlock);
        }
        let mut i: usize = 1;
        while i < n
            invariant
                1 <= i <= n,
                n == self.blocks@.len(),
                chain_verdict(self@) == scan_verdict(self@, i as int),
            decreases n - i,
        {
            match Chain::validate_neighbour_block(&self.blocks[i - 1], &self.blocks[i]) {
                Err(fault) => {
                    return Err(fault);
                },
                Ok(()) => {},
            }
            i = i + 1;
        }
        Ok(())
    }

    /// Appends the blocks of `other` beyond this chain's length, unchecked. A
    /// chain that is no longer than this one adds nothing.
    pub fn append_missing(&mut self, other: Chain)
        ensures
            final(self)@ == if other@.len() > old(self)@.len() {
                old(self)@ + other@.subrange(old(self)@.len() as int, other@.len() as int)
            } else {
                old(self)@
            },
    {
        let n = self.blocks.len();
        let mut theirs = other.blocks;
        if theirs.len() > n {
            let mut missing = theirs.split_off(n);
            self.blocks.append(&mut missing);
            assert(self@ =~= old(self)@ + other@.subrange(n as int, other@.len() as int));
        }
    }

    /// Resolves a fork by the longest-chain rule. A chain that is no longer
    /// than this one is ignored. A longer one is validated: where that fails
    /// the fault is returned and this chain is left as it is, and where it
    /// succeeds its blocks beyond this chain's length are appended.
    ///
    /// The offered chain is validated on its own: nothing checks that the
    /// two chains agree on the blocks that this one keeps, so the result is
    /// valid only where they do.
    pub fn accept(&mut self, other: Chain) -> (r: Result<(), ValidationError>)
        ensures
            r == accept_verdict(old(self)@, other@),
            final(self)@ == accepted(old(self)@, other@),
            final(self)@.len() >= old(self)@.len(),
            other@.len() <= old(self)@.len() ==> r is Ok && final(self)@ == old(self)@,
            !is_valid(other@) ==> final(self)@ == old(self)@,
            r is Err ==> final(self)@ == old(self)@,
    {
        if other.len() <= self.len() {
            return Ok(());
        }
        let found = other.validate();
        if found.is_ok() {
            self.append_missing(other);
        }
        found
    }

    /// Renders the chain for a reader: each block's text in order, each
    /// followed by an empty line.
    pub fn to_string(&self) -> (text: String)
        ensures
            text@ == chain_text(self@),
    {
        let mut text = String::new();
        let n = self.blocks.len();
        let mut i: usize = 0;
        assert(self@.subrange(0, 0) =~= Seq::<BlockView>::empty());
        while i < n
            invariant
                i <= n,
                n == self@.len(),
                n == self.blocks@.len(),
                text@ == chain_text(self@.subrange(0, i as int)),
            decreases n - i,
        {
            let shown = self.blocks[i].to_string();
            text.append(shown.as_str());
            text.append("\n");
            proof {
                let upto = self@.subrange(0, i + 1);
                assert(upto.drop_last() =~= self@.subrange(0, i as int));
                assert(upto.last() == self.blocks@[i as int]@);
            }
            i = i + 1;
        }
        assert(self@.subrange(0, n as int) =~= self@);
        text
    }
}

/// A chain stays linked when a block that links to its last block is appended.
pub proof fn lemma_push_keeps_linked(blocks: Seq<BlockView>, block: BlockView)
    requires
        is_linked(blocks),
        blocks.len() > 0 ==> block.prev_hash == blocks.last().hash,
    ensures
        is_linked(blocks.push(block)),
{
    let longer = blocks.push(block);
    assert forall|i: int| 0 <= i < longer.len() - 1 implies (#[trigger] longer[i]).hash == longer[i
        + 1].prev_hash by {
        if i < blocks.len() - 1 {
            assert(blocks[i].hash == blocks[i + 1].prev_hash);
        }
    }
}

/// A valid chain stays valid when a sealed block that links to its last block
/// is appended.
pub proof fn lemma_push_keeps_valid(blocks: Seq<BlockView>, block: BlockView)
    requires
        is_valid(blocks),
        block.prev_hash == blocks.last().hash,
        block.is_sealed(),
    ensures
        is_valid(blocks.push(block)),
{
    let longer = blocks.push(block);
    assert forall|i: int| 1 <= i < longer.len() implies (#[trigger] pair_verdict(
        longer[i - 1],
        longer[i],
    )) is Ok by {
        if i < blocks.len() {
            assert(pair_verdict(blocks[i - 1], blocks[i]) is Ok);
        }
    }
}

/// Scanning from `from` succeeds exactly where every pair from there on is
/// without fault.
pub proof fn lemma_scan_ok(blocks: Seq<BlockView>, from: int)
    requires
        1 <= from,
    ensures
        scan_verdict(blocks, from) is Ok <==> forall|i: int|
            from <= i < blocks.len() ==> (#[trigger] pair_verdict(blocks[i - 1], blocks[i])) is Ok,
    decreases blocks.len() - from,
{
    if from < blocks.len() {
        lemma_scan_ok(blocks, from + 1);
        if pair_verdict(blocks[from - 1], blocks[from]) is Ok {
            assert forall|i: int| from <= i < blocks.len() && (forall|j: int|
                from + 1 <= j < blocks.len() ==> (#[trigger] pair_verdict(
                    blocks[j - 1],
                    blocks[j],
                )) is Ok) implies (#[trigger] pair_verdict(blocks[i - 1], blocks[i])) is Ok by {
                if i > from {
                    assert(pair_verdict(blocks[i - 1], blocks[i]) is Ok);
                }
            }
        }
    }
}

/// Where no pair from `from` up to index `i` has a fault and the pair at `i`
/// has one, scanning from `from` finds that fault.
pub proof fn lemma_scan_first_fault(blocks: Seq<BlockView>, from: int, i: int)
    requires
        1 <= from <= i < blocks.len(),
        forall|j: int| from <= j < i ==> (#[trigger] pair_verdict(blocks[j - 1], blocks[j])) is Ok,
        pair_verdict(blocks[i - 1], blocks[i]) is Err,
    ensures
        scan_verdict(blocks, from) == pair_verdict(blocks[i - 1], blocks[i]),
    decreases i - from,
{
    if from < i {
        assert(pair_verdict(blocks[from - 1], blocks[from]) is Ok);
        lemma_scan_first_fault(blocks, from + 1, i);
    }
}

/// In a chain that starts with the genesis block, validation reports the
/// fault of the first pair that has one.
pub proof fn lemma_first_fault(blocks: Seq<BlockView>, i: int)
    requires
        1 <= i < blocks.len(),
        blocks[0] == BlockView::genesis(),
        forall|j: int| 1 <= j < i ==> (#[trigger] pair_verdict(blocks[j - 1], blocks[j])) is Ok,
        pair_verdict(blocks[i - 1], blocks[i]) is Err,
    ensures
        chain_verdict(blocks) == pair_verdict(blocks[i - 1], blocks[i]),
{
    lemma_scan_first_fault(blocks, 1, i);
}

/// Tamper detection, payload: in a valid chain, a block after the first whose
/// payload is replaced while its stored hash stays fails validation with
/// `InvalidHash`, unless the stored hash happens to be the hash of the new
/// content as well.
pub proof fn lemma_tampered_payload_is_found(blocks: Seq<BlockView>, i: int, payload: Seq<char>)
    requires
        is_valid(blocks),
        1 <= i < blocks.len(),
        !(BlockView { payload, ..blocks[i] }).is_sealed(),
    ensures
        chain_verdict(blocks.update(i, BlockView { payload, ..blocks[i] })) == Err::<
            (),
            ValidationError,
        >(ValidationError::InvalidHash),
{
    let tampered = blocks.update(i, BlockView { payload, ..blocks[i] });
    assert(pair_verdict(blocks[i - 1], blocks[i]) is Ok);
    assert forall|j: int| 1 <= j < i implies (#[trigger] pair_verdict(
        tampered[j - 1],
        tampered[j],
    )) is Ok by {
        assert(pair_verdict(blocks[j - 1], blocks[j]) is Ok);
    }
    lemma_first_fault(tampered, i);
}

/// Tamper detection, link: in a valid chain, a block after the first whose
/// link is replaced by another value fails validation with `InvalidPrevHash`,
/// whatever else was changed in it.
pub proof fn lemma_tampered_link_is_found(blocks: Seq<BlockView>, i: int, block: BlockView)
    requires
        is_valid(blocks),
        1 <= i < blocks.len(),
        block.prev_hash != blocks[i].prev_hash,
    ensures
        chain_verdict(blocks.update(i, block)) == Err::<(), ValidationError>(
            ValidationError::InvalidPrevHash,
        ),
{
    let tampered = blocks.update(i, block);
    assert(pair_verdict(blocks[i - 1], blocks[i]) is Ok);
    assert forall|j: int| 1 <= j < i implies (#[trigger] pair_verdict(
        tampered[j - 1],
        tampered[j],
    )) is Ok by {
        assert(pair_verdict(blocks[j - 1], blocks[j]) is Ok);
    }
    lemma_first_fault(tampered, i);
}

/// Tamper detection, first block: a chain whose first block is anything but
/// the genesis block fails validation with `BadGenesisBlock`.
pub proof fn lemma_tampered_genesis_is_found(blocks: Seq<BlockView>, block: BlockView)
    requires
        blocks.len() > 0,
        block != BlockView::genesis(),
    ensures
        chain_verdict(blocks.update(0, block)) == Err::<(), ValidationError>(
            ValidationError::BadGenesisBlock,
        ),
{
}

/// A valid chain is linked: each block but the last is followed by one that
/// stores its hash as its link.
pub proof fn lemma_valid_is_linked(blocks: Seq<BlockView>)
    requires
        is_valid(blocks),
    ensures
        is_linked(blocks),
{
    assert forall|i: int| 0 <= i < blocks.len() - 1 implies (#[trigger] blocks[i]).hash == blocks[i
        + 1].prev_hash by {
        assert(pair_verdict(blocks[i + 1 - 1], blocks[i + 1]) is Ok);
    }
}

/// Fork choice never shortens a chain, and leaves it as it is where the
/// offered chain is no longer than it or is not valid.
pub proof fn lemma_accepted_monotonic(ours: Seq<BlockView>, theirs: Seq<BlockView>)
    ensures
        accepted(ours, theirs).len() >= ours.len(),
        accepted(ours, theirs).subrange(0, ours.len() as int) == ours,
        theirs.len() <= ours.len() || !is_valid(theirs) ==> accepted(ours, theirs) == ours,
        theirs.len() > ours.len() && is_valid(theirs) ==> accepted(ours, theirs).len()
            == theirs.len(),
{
    lemma_verdict_ok_iff_valid(theirs);
    assert(accepted(ours, theirs).subrange(0, ours.len() as int) =~= ours);
}

/// Where the offered chain is valid, longer than ours, and starts with the
/// blocks of ours, accepting it gives the offered chain, which is valid.
pub proof fn lemma_accepted_extension(ours: Seq<BlockView>, theirs: Seq<BlockView>)
    requires
        is_valid(theirs),
        theirs.len() > ours.len(),
        theirs.subrange(0, ours.len() as int) == ours,
    ensures
        accepted(ours, theirs) == theirs,
        is_valid(accepted(ours, theirs)),
{
    lemma_verdict_ok_iff_valid(theirs);
    assert(theirs.subrange(0, ours.len() as int) + theirs.subrange(
        ours.len() as int,
        theirs.len() as int,
    ) =~= theirs);
}

/// Validation succeeds on the valid chains and on no others.
pub proof fn lemma_verdict_ok_iff_valid(blocks: Seq<BlockView>)
    ensures
        chain_verdict(blocks) is Ok <==> is_valid(blocks),
{
    lemma_scan_ok(blocks, 1);
}

} // verus!
