use vstd::prelude::*;

use crate::errors::{AccessKind, ErrSpec, ExecError};

verus! {

pub const BLOCK_COUNT: usize = 8;

pub const WORDS_PER_BLOCK: usize = 16;

pub const BLOCK_BYTES: u32 = 64;

pub const TOTAL_WORDS: usize = BLOCK_COUNT * WORDS_PER_BLOCK;

/// Per-block coherence tag. It is stored with each block but never read or
/// transitioned by any operation; it is reserved for a protocol this core
/// does not implement.
#[derive(Clone, Copy, PartialEq, Eq, Structural, Debug)]
pub enum MoesiState {
    Modified,
    Owner,
    Exclusive,
    Shared,
    Invalid,
}

impl Default for MoesiState {
    fn default() -> (r: Self)
        ensures
            r == MoesiState::Invalid,
    {
        MoesiState::Invalid
    }
}

/// One memory block: sixteen 32-bit words plus the inert coherence tag.
pub struct CacheLine {
    pub data: Vec<u32>,
    pub state: MoesiState,
}

impl CacheLine {
    pub open spec fn wf(&self) -> bool {
        self.data@.len() == WORDS_PER_BLOCK
    }
}

/// Word-addressable memory: eight blocks of sixteen words, byte-addressed,
/// with alignment and bounds checking on every access.
pub struct Memory {
    pub file: Vec<CacheLine>,
}

/// What a load from `addr` returns out of the flat word image `mem`:
/// an alignment fault when the address is not a multiple of four, a bounds
/// fault when the block index is past the last block, and otherwise the word.
pub open spec fn read32_spec(mem: Seq<u32>, addr: u32) -> Result<u32, ErrSpec> {
    if addr % 4 != 0 {
        Err(ErrSpec::UnalignedAccess(AccessKind::Read, addr))
    } else if addr / BLOCK_BYTES >= BLOCK_COUNT as u32 {
        Err(ErrSpec::OutOfBounds(AccessKind::Read, addr))
    } else {
        Ok(mem[addr as int / 4])
    }
}

/// What a store of `val` at `addr` does to the flat word image `mem`, with
/// the same fault conditions as a load.
pub open spec fn write32_spec(mem: Seq<u32>, addr: u32, val: u32) -> Result<Seq<u32>, ErrSpec> {
    if addr % 4 != 0 {
        Err(ErrSpec::UnalignedAccess(AccessKind::Write, addr))
    } else if addr / BLOCK_BYTES >= BLOCK_COUNT as u32 {
        Err(ErrSpec::OutOfBounds(AccessKind::Write, addr))
    } else {
        Ok(mem.update(addr as int / 4, val))
    }
}

impl Memory {
    pub open spec fn wf(&self) -> bool {
        &&& self.file@.len() == BLOCK_COUNT
        &&& forall|i: int| 0 <= i < BLOCK_COUNT ==> (#[trigger] self.file@[i]).wf()
    }

    /// All words of memory in block-major order, as one flat sequence.
    pub open spec fn words(&self) -> Seq<u32> {
        Seq::new(TOTAL_WORDS as nat, |i: int| self.file@[i / 16].data@[i % 16])
    }

    /// The coherence tag of every block, in order.
    pub open spec fn states(&self) -> Seq<MoesiState> {
        Seq::new(BLOCK_COUNT as nat, |i: int| self.file@[i].state)
    }

    pub fn new() -> (r: Memory)
        ensures
            r.wf(),
            forall|i: int| 0 <= i < TOTAL_WORDS ==> r.words()[i] == 0u32,
            forall|i: int| 0 <= i < BLOCK_COUNT ==> r.states()[i] == MoesiState::Invalid,
    {
        let mut file: Vec<CacheLine> = Vec::new();
        while file.len() < BLOCK_COUNT
            invariant
                file@.len() <= BLOCK_COUNT,
                forall|i: int| 0 <= i < file@.len() ==> (#[trigger] file@[i]).wf(),
                forall|i: int, j: int|
                    0 <= i < file@.len() && 0 <= j < WORDS_PER_BLOCK ==> file@[i].data@[j] == 0u32,
                forall|i: int| 0 <= i < file@.len() ==> file@[i].state == MoesiState::Invalid,
            decreases BLOCK_COUNT - file@.len(),
        {
            let mut data: Vec<u32> = Vec::new();
            while data.len() < WORDS_PER_BLOCK
                invariant
                    data@.len() <= WORDS_PER_BLOCK,
                    forall|j: int| 0 <= j < data@.len() ==> data@[j] == 0u32,
                decreases WORDS_PER_BLOCK - data@.len(),
            {
                data.push(0u32);
            }
            file.push(CacheLine { data, state: MoesiState::Invalid });
        }
        Memory { file }
    }

    pub fn read32(&self, addr: u32) -> (r: Result<u32, ExecError>)
        requires
            self.wf(),
        ensures
            (match read32_spec(self.words(), addr) {
                Ok(v) => r matches Ok(w) && w == v,
                Err(e) => r matches Err(x) && x@ == e,
            }),
    {
        let index = (addr / 64) as usize;
        let offs = (addr % 64) as usize;
        proof {
            assert((addr % 64) % 4 == addr % 4 && (addr % 64) / 4 == (addr / 4) % 16
                && addr / 64 == (addr / 4) / 16 && addr % 64 < 64) by (bit_vector);
        }
        if offs % 4 != 0 {
            return Err(ExecError::UnalignedAccess(AccessKind::Read, addr));
        }
        if index >= self.file.len() {
            return Err(ExecError::OutOfBounds(AccessKind::Read, addr));
        }
        proof {
            assert(addr / 64 < 8 ==> addr / 4 < 128) by (bit_vector);
        }
        let w = self.file[index].data[offs / 4];
        assert(w == self.words()[addr as int / 4]);
        Ok(w)
    }

    pub fn write32(&mut self, addr: u32, val: u32) -> (r: Result<(), ExecError>)
        requires
            old(self).wf(),
        ensures
            final(self).wf(),
            (match write32_spec(old(self).words(), addr, val) {
                Ok(m) => r is Ok && final(self).words() == m && final(self).states()
                    == old(self).states(),
                Err(e) => r matches Err(x) && x@ == e && *final(self) == *old(self),
            }),
    {
        let index = (addr / 64) as usize;
        let offs = (addr % 64) as usize;
        proof {
            assert((addr % 64) % 4 == addr % 4 && (addr % 64) / 4 == (addr / 4) % 16
                && addr / 64 == (addr / 4) / 16 && addr % 64 < 64) by (bit_vector);
        }
        if offs % 4 != 0 {
            return Err(ExecError::UnalignedAccess(AccessKind::Write, addr));
        }
        if index >= self.file.len() {
            return Err(ExecError::OutOfBounds(AccessKind::Write, addr));
        }
        proof {
            assert(addr / 64 < 8 ==> addr / 4 < 128) by (bit_vector);
        }
        self.file[index].data[offs / 4] = val;
        proof {
            let k = addr as int / 4;
            assert forall|i: int| 0 <= i < TOTAL_WORDS && i != k implies self.words()[i]
                == old(self).words()[i] by {
                assert(i == 16 * (i / 16) + i % 16 && k == 16 * (k / 16) + k % 16);
            }
            assert(self.words() =~= old(self).words().update(k, val));
            assert(self.states() =~= old(self).states());
        }
        Ok(())
    }
}

/// A store followed by a load at the same address returns the stored value.
pub proof fn lemma_store_load_round_trip(mem: Seq<u32>, addr: u32, val: u32)
    requires
        mem.len() == TOTAL_WORDS,
        write32_spec(mem, addr, val) is Ok,
    ensures
        read32_spec(write32_spec(mem, addr, val)->Ok_0, addr) == Ok::<u32, ErrSpec>(val),
{
    assert(addr / 64 < 8 ==> addr / 4 < 128) by (bit_vector);
}

/// Any access whose address is not a multiple of four fails with an
/// alignment fault, for loads and stores alike.
pub proof fn lemma_unaligned_access_fails(mem: Seq<u32>, addr: u32, val: u32)
    requires
        addr % 4 != 0,
    ensures
        read32_spec(mem, addr) == Err::<u32, ErrSpec>(ErrSpec::UnalignedAccess(
            AccessKind::Read,
            addr,
        )),
        write32_spec(mem, addr, val) == Err::<Seq<u32>, ErrSpec>(ErrSpec::UnalignedAccess(
            AccessKind::Write,
            addr,
        )),
{
}

/// Any aligned access whose block index is at or past the block count fails
/// with a bounds fault, for loads and stores alike.
pub proof fn lemma_out_of_bounds_access_fails(mem: Seq<u32>, addr: u32, val: u32)
    requires
        addr % 4 == 0,
        addr / BLOCK_BYTES >= BLOCK_COUNT as u32,
    ensures
        read32_spec(mem, addr) == Err::<u32, ErrSpec>(ErrSpec::OutOfBounds(
            AccessKind::Read,
            addr,
        )),
        write32_spec(mem, addr, val) == Err::<Seq<u32>, ErrSpec>(ErrSpec::OutOfBounds(
            AccessKind::Write,
            addr,
        )),
{
}

} // verus!
