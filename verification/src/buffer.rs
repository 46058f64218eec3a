//! The write buffer: one block for each worker, refilled before every write, whose
//! place in memory and whose length meet what unbuffered I/O asks for.
//!
//! A block is `BUF_SIZE` bytes long unless the run has so many workers that their
//! blocks together would pass `MEMORY_CAP`; then each worker gets a shorter one.

use vstd::prelude::*;
use crate::stream::RandomStream;

verus! {

/// The longest block, in bytes: what one write hands to the target unless memory is
/// short.
pub const BUF_SIZE: usize = 1048576;

/// Boundary on which the block's address and length lie.
pub const BUF_ALIGN: usize = 8192;

/// Bytes that the blocks of all workers together should stay within.
pub const MEMORY_CAP: usize = 268435456;

/// Whether `addr` lies on a multiple of `align`.
pub open spec fn is_aligned(addr: int, align: int) -> bool {
    addr % align == 0
}

/// Distance from `addr` up to the next multiple of `align`.
pub open spec fn padding(addr: int, align: int) -> int {
    if addr % align == 0 {
        0
    } else {
        align - addr % align
    }
}

/// The padding is under one alignment unit and leads to an aligned address.
pub proof fn lemma_padding_aligns(addr: int, align: int)
    requires
        0 <= addr,
        0 < align,
    ensures
        0 <= padding(addr, align) < align,
        is_aligned(addr + padding(addr, align), align),
{
    if addr % align != 0 {
        vstd::arithmetic::div_mod::lemma_fundamental_div_mod(addr, align);
        vstd::arithmetic::div_mod::lemma_mod_multiples_basic(addr / align + 1, align);
        assert(addr + (align - addr % align) == (addr / align + 1) * align) by (nonlinear_arith)
            requires
                addr == align * (addr / align) + addr % align,
        ;
    }
}

/// Computes how many bytes lie between `addr` and the next multiple of `align`.
pub fn padding_for(addr: usize, align: usize) -> (pad: usize)
    requires
        align > 0,
    ensures
        pad == padding(addr as int, align as int),
        pad < align,
        is_aligned(addr + pad, align as int),
{
    proof {
        lemma_padding_aligns(addr as int, align as int);
    }
    let rem: usize = addr % align;
    if rem == 0 {
        0
    } else {
        align - rem
    }
}

/// Whether a block may be `len` bytes long: a whole number of alignment units, at
/// least one, and no longer than `BUF_SIZE`.
pub open spec fn valid_block_len(len: int) -> bool {
    0 < len <= BUF_SIZE && len % (BUF_ALIGN as int) == 0
}

/// The block length for a run of `workers` workers: each worker's equal share of
/// `MEMORY_CAP`, in whole alignment units, but no more than `BUF_SIZE` and no less
/// than one unit.
pub open spec fn block_len_of(workers: nat) -> nat {
    if workers == 0 {
        BUF_SIZE as nat
    } else {
        let share: nat = MEMORY_CAP as nat / workers;
        let whole: nat = (share - share % (BUF_ALIGN as nat)) as nat;
        if whole > BUF_SIZE {
            BUF_SIZE as nat
        } else if whole < BUF_ALIGN {
            BUF_ALIGN as nat
        } else {
            whole
        }
    }
}

/// The block length of a run is a valid one. It is `BUF_SIZE` while that many
/// blocks fit the cap, and the blocks of all workers stay within the cap as long as
/// one alignment unit each does.
pub proof fn lemma_block_len(workers: nat)
    ensures
        valid_block_len(block_len_of(workers) as int),
        workers * BUF_SIZE <= MEMORY_CAP ==> block_len_of(workers) == BUF_SIZE,
        workers * BUF_ALIGN <= MEMORY_CAP ==> workers * block_len_of(workers) <= MEMORY_CAP,
{
    if workers > 0 {
        let cap: int = MEMORY_CAP as int;
        let n: int = workers as int;
        let share: int = cap / n;
        let unit: int = BUF_ALIGN as int;
        let whole: int = share - share % unit;
        vstd::arithmetic::div_mod::lemma_fundamental_div_mod(cap, n);
        vstd::arithmetic::div_mod::lemma_fundamental_div_mod(share, unit);
        vstd::arithmetic::div_mod::lemma_mod_multiples_basic(share / unit, unit);
        assert(whole == (share / unit) * unit) by (nonlinear_arith)
            requires
                share == unit * (share / unit) + share % unit,
                whole == share - share % unit,
        ;
        assert(n * share <= cap) by (nonlinear_arith)
            requires
                cap == n * (cap / n) + cap % n,
                share == cap / n,
                0 <= cap % n,
        ;
        if n * BUF_SIZE <= cap {
            assert(share >= BUF_SIZE) by (nonlinear_arith)
                requires
                    n > 0,
                    n * BUF_SIZE <= cap,
                    cap == n * share + cap % n,
                    cap % n < n,
            ;
        }
        if n * unit <= cap {
            assert(share >= unit) by (nonlinear_arith)
                requires
                    n > 0,
                    n * unit <= cap,
                    cap == n * share + cap % n,
                    cap % n < n,
            ;
            let len: int = block_len_of(workers) as int;
            assert(len <= share);
            assert(n * len <= n * share) by (nonlinear_arith)
                requires
                    n > 0,
                    0 <= len <= share,
            ;
        }
    }
}

/// Chooses the block length for a run of `workers` workers.
pub fn block_len(workers: usize) -> (len: usize)
    ensures
        len == block_len_of(workers as nat),
        valid_block_len(len as int),
{
    proof {
        lemma_block_len(workers as nat);
    }
    if workers == 0 {
        BUF_SIZE
    } else {
        let share: usize = MEMORY_CAP / workers;
        let whole: usize = share - share % BUF_ALIGN;
        if whole > BUF_SIZE {
            BUF_SIZE
        } else if whole < BUF_ALIGN {
            BUF_ALIGN
        } else {
            whole
        }
    }
}

/// Reads `Vec::as_ptr` as a number: where the vector's bytes lie in memory. The
/// place depends on the allocator, so nothing is claimed of it.
#[verifier::external_body]
fn address_of(storage: &Vec<u8>) -> (addr: usize) {
    storage.as_ptr() as usize
}

/// A block of bytes that starts on a multiple of `BUF_ALIGN` and is a whole number
/// of alignment units long.
///
/// The block is a window into storage that is one alignment unit longer, placed at
/// the first aligned address in it.
pub struct Buf {
    storage: Vec<u8>,
    base: usize,
    start: usize,
    len: usize,
}

impl View for Buf {
    type V = Seq<u8>;

    /// The bytes of the block.
    closed spec fn view(&self) -> Seq<u8> {
        self.storage@.subrange(self.start as int, self.start + self.len)
    }
}

impl Buf {
    /// The storage is one alignment unit longer than the block, and the block starts
    /// at the first aligned address in it.
    pub closed spec fn wf(&self) -> bool {
        &&& valid_block_len(self.len as int)
        &&& self.storage@.len() == self.len + BUF_ALIGN
        &&& self.start == padding(self.base as int, BUF_ALIGN as int)
    }

    /// The address of the block's first byte, as seen when the storage was allocated.
    pub closed spec fn address(&self) -> int {
        self.base + self.start
    }

    /// The block starts on the alignment boundary and is a whole number of alignment
    /// units long.
    pub proof fn lemma_block_aligned(self)
        requires
            self.wf(),
        ensures
            is_aligned(self.address(), BUF_ALIGN as int),
            valid_block_len(self@.len() as int),
    {
        lemma_padding_aligns(self.base as int, BUF_ALIGN as int);
    }

    /// Allocates a block of `len` zeros.
    pub(crate) fn allocate(len: usize) -> (buf: Buf)
        requires
            valid_block_len(len as int),
        ensures
            buf.wf(),
            buf@ == Seq::new(len as nat, |i: int| 0u8),
            is_aligned(buf.address(), BUF_ALIGN as int),
    {
        let storage = vec![0u8; len + BUF_ALIGN];
        let base: usize = address_of(&storage);
        let start: usize = padding_for(base, BUF_ALIGN);
        let buf = Buf { storage, base, start, len };
        assert(buf@ =~= Seq::new(len as nat, |i: int| 0u8));
        buf
    }

    /// Allocates a block of `BUF_SIZE` zeros.
    pub fn new() -> (buf: Buf)
        ensures
            buf.wf(),
            buf@ == Seq::new(BUF_SIZE as nat, |i: int| 0u8),
            is_aligned(buf.address(), BUF_ALIGN as int),
    {
        Buf::allocate(BUF_SIZE)
    }

    /// Allocates a block of `len` zeros, where `len` is a valid block length.
    pub fn with_len(len: usize) -> (made: Option<Buf>)
        ensures
            made is Some <==> valid_block_len(len as int),
            made matches Some(buf) ==> buf.wf(),
            made matches Some(buf) ==> buf@ == Seq::new(len as nat, |i: int| 0u8),
            made matches Some(buf) ==> is_aligned(buf.address(), BUF_ALIGN as int),
    {
        if len == 0 || len > BUF_SIZE || len % BUF_ALIGN != 0 {
            None
        } else {
            Some(Buf::allocate(len))
        }
    }

    /// The length of the block in bytes.
    pub fn len(&self) -> (len: usize)
        requires
            self.wf(),
        ensures
            len == self@.len(),
            valid_block_len(len as int),
    {
        proof {
            lemma_padding_aligns(self.base as int, BUF_ALIGN as int);
        }
        self.len
    }

    /// The block, ready to be written.
    pub fn block(&self) -> (bytes: &[u8])
        requires
            self.wf(),
        ensures
            bytes@ == self@,
    {
        proof {
            lemma_padding_aligns(self.base as int, BUF_ALIGN as int);
        }
        vstd::slice::slice_subrange(self.storage.as_slice(), self.start, self.start + self.len)
    }

    /// Overwrites the whole block with the next bytes of `stream`. The block stays
    /// where it is and as long as it is.
    pub fn refill(&mut self, stream: &mut RandomStream)
        requires
            old(self).wf(),
        ensures
            final(self).wf(),
            final(self).address() == old(self).address(),
            final(self)@.len() == old(self)@.len(),
    {
        proof {
            lemma_padding_aligns(self.base as int, BUF_ALIGN as int);
        }
        let len: usize = self.len;
        let whole = self.storage.as_mut_slice();
        let (_, rest) = whole.split_at_mut(self.start);
        let (window, _) = rest.split_at_mut(len);
        stream.fill(window);
    }
}

} // verus!
