//! Moving a file's data in chunks: how much to read next, and how much is
//! left, so that a transfer never reads past the size its header announced.
use vstd::prelude::*;

use crate::utils::MAX_CHUNK_SIZE;

verus! {

/// The size of the next chunk when `remaining` bytes are left: all of them,
/// up to `MAX_CHUNK_SIZE`.
pub open spec fn chunk_len_of(remaining: u64) -> nat {
    if remaining < MAX_CHUNK_SIZE {
        remaining as nat
    } else {
        MAX_CHUNK_SIZE as nat
    }
}

/// A `u64` taken as a `usize` is never larger than it was.
pub proof fn lemma_usize_cast_le(x: u64)
    ensures
        (x as usize) as nat <= x as nat,
{
    assert((x as usize) as u64 <= x) by (bit_vector);
}

/// The size of the next chunk when `remaining` bytes are left.
pub fn chunk_len(remaining: u64) -> (r: usize)
    ensures
        r == chunk_len_of(remaining),
        r as nat <= remaining as nat,
        r <= MAX_CHUNK_SIZE,
{
    if remaining < MAX_CHUNK_SIZE as u64 {
        remaining as usize
    } else {
        MAX_CHUNK_SIZE
    }
}

/// A transfer under way: how many bytes of the file are still to come.
pub struct Transfer {
    remaining: u64,
}

impl View for Transfer {
    type V = u64;

    closed spec fn view(&self) -> u64 {
        self.remaining
    }
}

impl Transfer {
    /// A transfer with `remaining` bytes still to come.
    pub fn new(remaining: u64) -> (t: Self)
        ensures
            t@ == remaining,
    {
        Transfer { remaining }
    }

    /// How many bytes are still to come.
    pub fn remaining(&self) -> (r: u64)
        ensures
            r == self@,
    {
        self.remaining
    }

    /// Whether every byte has come.
    pub fn is_done(&self) -> (r: bool)
        ensures
            r == (self@ == 0),
    {
        self.remaining == 0
    }

    /// How many bytes to read next: never more than are still to come, and
    /// never more than `MAX_CHUNK_SIZE`.
    pub fn next_chunk_len(&self) -> (r: usize)
        ensures
            r == chunk_len_of(self@),
            r as nat <= self@ as nat,
            r <= MAX_CHUNK_SIZE,
    {
        chunk_len(self.remaining)
    }

    /// Records that `n` more bytes have come.
    pub fn record(&mut self, n: usize)
        requires
            n as nat <= old(self)@ as nat,
        ensures
            final(self)@ == old(self)@ - n,
    {
        self.remaining = self.remaining - n as u64;
    }
}

/// The next chunk is empty only when nothing is left: a transfer whose reads
/// each fill the chunk asked for always moves forward until it is done.
pub proof fn lemma_chunk_len_progress(remaining: u64)
    ensures
        (chunk_len_of(remaining) == 0) == (remaining == 0),
{
}

} // verus!
