//! A fixed-capacity, block-addressable store held entirely in memory: a
//! simulated disk of `NUM_BLOCKS` blocks of `BLOCK_SIZE` bytes each, with
//! bounds-checked whole-block read and write.

use vstd::prelude::*;
use vstd::array::array_fill_for_copy_types;
use vstd::string::StringSliceAdditionalSpecFns;

verus! {

broadcast use vstd::array::group_array_axioms;

/// The out-of-range condition: the only way an operation can fail.
/// Each variant carries the offending index and the maximum valid index.
#[derive(Copy, Clone, PartialEq, Eq, Debug)]
pub enum RamDiskError {
    IllegalBlockRead(usize, usize),
    IllegalBlockWrite(usize, usize),
}

/// The contents of a block of prior contents `prior` after a text payload
/// `text` is copied into it: the first `min(|text|, |prior|)` bytes come from
/// `text`, and the bytes past the end of `text`, if any, keep their prior
/// values.
pub open spec fn text_block(prior: Seq<u8>, text: Seq<u8>) -> Seq<u8> {
    let n = if text.len() < prior.len() {
        text.len() as int
    } else {
        prior.len() as int
    };
    text.subrange(0, n) + prior.subrange(n, prior.len() as int)
}

/// An in-memory disk of `NUM_BLOCKS` blocks, each exactly `BLOCK_SIZE` bytes.
/// The array type fixes both capacities at construction; no operation can
/// resize a block or change the block count.
#[derive(Debug, Copy, Clone)]
pub struct RamDisk<const BLOCK_SIZE: usize, const NUM_BLOCKS: usize> {
    blocks: [[u8; BLOCK_SIZE]; NUM_BLOCKS],
}

impl<const BLOCK_SIZE: usize, const NUM_BLOCKS: usize> View for RamDisk<BLOCK_SIZE, NUM_BLOCKS> {
    type V = Seq<Seq<u8>>;

    /// The mathematical model: the sequence of block contents, one byte
    /// sequence of length `BLOCK_SIZE` per block.
    closed spec fn view(&self) -> Seq<Seq<u8>> {
        Seq::new(NUM_BLOCKS as nat, |i: int| self.blocks[i]@)
    }
}

impl<const BLOCK_SIZE: usize, const NUM_BLOCKS: usize> RamDisk<BLOCK_SIZE, NUM_BLOCKS> {
    /// A fresh disk with every byte of every block zero.
    pub fn new() -> (disk: Self)
        ensures
            disk@.len() == NUM_BLOCKS,
            forall|i: int| 0 <= i < NUM_BLOCKS ==> (#[trigger] disk@[i]).len() == BLOCK_SIZE,
            forall|i: int, j: int|
                0 <= i < NUM_BLOCKS && 0 <= j < BLOCK_SIZE ==> (#[trigger] disk@[i][j]) == 0u8,
    {
        let zero_block: [u8; BLOCK_SIZE] = array_fill_for_copy_types(0u8);
        let blocks: [[u8; BLOCK_SIZE]; NUM_BLOCKS] = array_fill_for_copy_types(zero_block);
        Self { blocks }
    }

    /// A disk seeded with caller-supplied block contents, taken as they are.
    pub fn blocks(blocks: [[u8; BLOCK_SIZE]; NUM_BLOCKS]) -> (disk: Self)
        ensures
            disk@.len() == NUM_BLOCKS,
            forall|i: int| 0 <= i < NUM_BLOCKS ==> (#[trigger] disk@[i]) == blocks[i]@,
    {
        Self { blocks }
    }

    /// The fixed number of blocks.
    pub fn num_blocks(&self) -> (n: usize)
        ensures
            n == NUM_BLOCKS,
            n == self@.len(),
    {
        NUM_BLOCKS
    }

    /// The fixed size of each block, in bytes.
    pub fn block_size(&self) -> (s: usize)
        ensures
            s == BLOCK_SIZE,
    {
        BLOCK_SIZE
    }

    /// The total capacity in bytes: block count times block size.
    pub fn total_storage(&self) -> (total: usize)
        requires
            NUM_BLOCKS * BLOCK_SIZE <= usize::MAX,
        ensures
            total == NUM_BLOCKS * BLOCK_SIZE,
    {
        NUM_BLOCKS * BLOCK_SIZE
    }

    /// Copy the contents of block `block` into `buffer`. The store is never
    /// modified. An out-of-range index is reported, with the maximum valid
    /// index, and leaves `buffer` untouched.
    pub fn read(&self, block: usize, buffer: &mut [u8; BLOCK_SIZE]) -> (r: Result<
        (),
        RamDiskError,
    >)
        requires
            NUM_BLOCKS >= 1,
        ensures
            block < NUM_BLOCKS ==> r == Ok::<(), RamDiskError>(()) && final(buffer)@ == self@[block as int],
            block >= NUM_BLOCKS ==> r == Err::<(), RamDiskError>(
                RamDiskError::IllegalBlockRead(block, (NUM_BLOCKS - 1) as usize),
            ) && final(buffer)@ == old(buffer)@,
    {
        if block < NUM_BLOCKS {
            *buffer = self.blocks[block];
            Ok(())
        } else {
            Err(RamDiskError::IllegalBlockRead(block, NUM_BLOCKS - 1))
        }
    }

    /// Replace the contents of block `block` with a byte-for-byte copy of
    /// `buffer`. No other block changes. An out-of-range index is reported,
    /// with the maximum valid index, and leaves the store untouched.
    pub fn write(&mut self, block: usize, buffer: &[u8; BLOCK_SIZE]) -> (r: Result<
        (),
        RamDiskError,
    >)
        requires
            NUM_BLOCKS >= 1,
        ensures
            block < NUM_BLOCKS ==> r == Ok::<(), RamDiskError>(()) && final(self)@ == old(
                self,
            )@.update(block as int, buffer@),
            block >= NUM_BLOCKS ==> r == Err::<(), RamDiskError>(
                RamDiskError::IllegalBlockWrite(block, (NUM_BLOCKS - 1) as usize),
            ) && final(self)@ == old(self)@,
    {
        if block < NUM_BLOCKS {
            self.blocks[block] = *buffer;
            proof {
                assert(final(self)@ =~= old(self)@.update(block as int, buffer@));
            }
            Ok(())
        } else {
            Err(RamDiskError::IllegalBlockWrite(block, NUM_BLOCKS - 1))
        }
    }

    /// Copy the first `min(|contents|, BLOCK_SIZE)` bytes of `contents` into
    /// block `block`, starting at offset 0. Text longer than a block is
    /// silently truncated; text shorter than a block leaves the tail of the
    /// block at its prior values. No other block changes. An out-of-range
    /// index is reported, with the maximum valid index, and leaves the store
    /// untouched.
    pub fn write_from_str(&mut self, block: usize, contents: &str) -> (r: Result<
        (),
        RamDiskError,
    >)
        requires
            NUM_BLOCKS >= 1,
        ensures
            block < NUM_BLOCKS ==> r == Ok::<(), RamDiskError>(()) && final(self)@ == old(
                self,
            )@.update(block as int, text_block(old(self)@[block as int], contents.spec_bytes())),
            block >= NUM_BLOCKS ==> r == Err::<(), RamDiskError>(
                RamDiskError::IllegalBlockWrite(block, (NUM_BLOCKS - 1) as usize),
            ) && final(self)@ == old(self)@,
    {
        if block < NUM_BLOCKS {
            let bytes: &[u8] = contents.as_bytes();
            let n: usize = if bytes.len() < BLOCK_SIZE {
                bytes.len()
            } else {
                BLOCK_SIZE
            };
            let mut buf: [u8; BLOCK_SIZE] = self.blocks[block];
            let ghost prior: Seq<u8> = buf@;
            let mut i: usize = 0;
            while i < n
                invariant
                    i <= n,
                    n <= BLOCK_SIZE,
                    n <= bytes@.len(),
                    forall|j: int| 0 <= j < i ==> buf@[j] == bytes@[j],
                    forall|j: int| i <= j < BLOCK_SIZE ==> buf@[j] == prior[j],
                decreases n - i,
            {
                buf[i] = bytes[i];
                i += 1;
            }
            proof {
                assert(buf@ =~= text_block(prior, bytes@));
            }
            self.blocks[block] = buf;
            proof {
                assert(final(self)@ =~= old(self)@.update(
                    block as int,
                    text_block(old(self)@[block as int], contents.spec_bytes()),
                ));
            }
            Ok(())
        } else {
            Err(RamDiskError::IllegalBlockWrite(block, NUM_BLOCKS - 1))
        }
    }
}

/// Round-trip: writing a buffer to a valid block and then reading that block
/// back yields the buffer. `write` turns the store `store` into
/// `store.update(i, b)`, and `read` on block `i` then yields exactly the
/// entry at `i`.
pub proof fn lemma_write_read_round_trip(store: Seq<Seq<u8>>, i: int, b: Seq<u8>)
    requires
        0 <= i < store.len(),
    ensures
        store.update(i, b)[i] == b,
{
}

/// Isolation: writing block `i` never changes the contents of any other
/// block `j`, whether by `write` (the block becomes `b`) or by
/// `write_from_str` (the block becomes `text_block(store[i], text)`): both
/// leave every entry of the store but `i` as it was.
pub proof fn lemma_write_isolation(store: Seq<Seq<u8>>, i: int, j: int, b: Seq<u8>)
    requires
        0 <= i < store.len(),
        0 <= j < store.len(),
        i != j,
    ensures
        store.update(i, b)[j] == store[j],
{
}

/// Truncating write: a text payload at least as long as the block replaces
/// the block with exactly the first `|prior|` bytes of the text.
pub proof fn lemma_text_block_truncates(prior: Seq<u8>, text: Seq<u8>)
    requires
        text.len() >= prior.len(),
    ensures
        text_block(prior, text) == text.subrange(0, prior.len() as int),
{
    assert(text_block(prior, text) =~= text.subrange(0, prior.len() as int));
}

/// Partial write preserves the tail: a text payload shorter than the block
/// replaces the first `|text|` bytes and leaves every byte from `|text|` on
/// at its prior value; the block keeps its length.
pub proof fn lemma_text_block_preserves_tail(prior: Seq<u8>, text: Seq<u8>)
    requires
        text.len() < prior.len(),
    ensures
        text_block(prior, text).len() == prior.len(),
        forall|j: int| 0 <= j < text.len() ==> text_block(prior, text)[j] == text[j],
        forall|j: int|
            text.len() <= j < prior.len() ==> text_block(prior, text)[j] == prior[j],
{
}

} // verus!
