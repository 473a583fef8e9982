use vstd::prelude::*;

use crate::fault::Fault;
use crate::font;

verus! {

/// Size of the flat address space in bytes.
pub const MEM_SIZE: usize = 4096;

/// Address at which a loaded program begins; also the reset value of the
/// program counter.
pub const START_ADDRESS: u16 = 0x200;

/// The big-endian 16-bit word held at `addr` and `addr + 1`.
pub open spec fn be_word(m: Seq<u8>, addr: int) -> u16 {
    (m[addr] * 256 + m[addr + 1]) as u16
}

/// `m` with `data` copied over the range starting at `addr`.
pub open spec fn write_seq(m: Seq<u8>, addr: int, data: Seq<u8>) -> Seq<u8> {
    Seq::new(m.len(), |j: int| if addr <= j < addr + data.len() { data[j - addr] } else { m[j] })
}

/// The machine's flat byte-addressed memory.
pub struct Mem {
    memory: Vec<u8>,
}

impl View for Mem {
    type V = Seq<u8>;

    closed spec fn view(&self) -> Seq<u8> {
        self.memory@
    }
}

/// A vector of `n` zero bytes.
pub(crate) fn zero_bytes(n: usize) -> (r: Vec<u8>)
    ensures
        r@ == Seq::new(n as nat, |i: int| 0u8),
{
    let mut r: Vec<u8> = Vec::new();
    while r.len() < n
        invariant
            r@.len() <= n,
            forall|i: int| 0 <= i < r@.len() ==> r@[i] == 0u8,
        decreases n - r@.len(),
    {
        r.push(0u8);
    }
    proof {
        assert(r@ =~= Seq::new(n as nat, |i: int| 0u8));
    }
    r
}

impl Mem {
    /// Every memory value holds exactly `MEM_SIZE` bytes.
    pub open spec fn wf(&self) -> bool {
        self@.len() == MEM_SIZE
    }

    /// Fresh memory: all bytes zero.
    pub fn new() -> (r: Mem)
        ensures
            r.wf(),
            r@ == Seq::new(MEM_SIZE as nat, |i: int| 0u8),
    {
        Mem { memory: zero_bytes(MEM_SIZE) }
    }

    /// Copies `value` into memory starting at `addr`; faults, changing
    /// nothing, when the range does not fit in the address space.
    pub fn write(&mut self, addr: u16, value: &[u8]) -> (r: Result<(), Fault>)
        requires
            old(self).wf(),
        ensures
            final(self).wf(),
            addr + value@.len() <= MEM_SIZE ==> r is Ok && final(self)@ == write_seq(
                old(self)@,
                addr as int,
                value@,
            ),
            addr + value@.len() > MEM_SIZE ==> r == Err::<(), Fault>(Fault::OutOfBounds)
                && final(self)@ == old(self)@,
    {
        let start = addr as usize;
        let len = value.len();
        if len > MEM_SIZE || start > MEM_SIZE - len {
            return Err(Fault::OutOfBounds);
        }
        let mut k: usize = 0;
        while k < len
            invariant
                k <= len,
                len == value@.len(),
                start + len <= MEM_SIZE,
                self@.len() == MEM_SIZE,
                forall|j: int|
                    0 <= j < MEM_SIZE ==> self@[j] == (if start <= j < start + k {
                        value@[j - start]
                    } else {
                        old(self)@[j]
                    }),
            decreases len - k,
        {
            self.memory.set(start + k, value[k]);
            k += 1;
        }
        proof {
            assert(self@ =~= write_seq(old(self)@, addr as int, value@));
        }
        Ok(())
    }

    /// Copies the font table to `FONT_ADDRESS`; the rest of memory is kept.
    pub fn load_font(&mut self)
        requires
            old(self).wf(),
        ensures
            final(self).wf(),
            final(self)@ == font::with_font(old(self)@),
    {
        let table = font::font_sprite();
        let r = self.write(font::FONT_ADDRESS, table.as_slice());
        proof {
            assert(r is Ok);
            assert(self@ =~= font::with_font(old(self)@));
        }
    }

    /// Copies a program image to `START_ADDRESS`; faults, changing nothing,
    /// when the image does not fit in the address space.
    pub fn load_program(&mut self, program: &[u8]) -> (r: Result<(), Fault>)
        requires
            old(self).wf(),
        ensures
            final(self).wf(),
            START_ADDRESS + program@.len() <= MEM_SIZE ==> r is Ok && final(self)@ == write_seq(
                old(self)@,
                START_ADDRESS as int,
                program@,
            ),
            START_ADDRESS + program@.len() > MEM_SIZE ==> r == Err::<(), Fault>(
                Fault::OutOfBounds,
            ) && final(self)@ == old(self)@,
    {
        self.write(START_ADDRESS, program)
    }

    /// A copy of the `length` bytes starting at `addr`; faults when the range
    /// does not fit in the address space.
    pub fn read(&self, addr: u16, length: usize) -> (r: Result<Vec<u8>, Fault>)
        requires
            self.wf(),
        ensures
            addr + length <= MEM_SIZE ==> ({
                &&& r matches Ok(v)
                &&& v@ == self@.subrange(addr as int, addr + length)
            }),
            addr + length > MEM_SIZE ==> r == Err::<Vec<u8>, Fault>(Fault::OutOfBounds),
    {
        let start = addr as usize;
        if length > MEM_SIZE || start > MEM_SIZE - length {
            return Err(Fault::OutOfBounds);
        }
        let mut v: Vec<u8> = Vec::new();
        let mut k: usize = 0;
        while k < length
            invariant
                k <= length,
                start + length <= MEM_SIZE,
                self@.len() == MEM_SIZE,
                v@.len() == k,
                forall|j: int| 0 <= j < k ==> v@[j] == self@[start + j],
            decreases length - k,
        {
            v.push(self.memory[start + k]);
            k += 1;
        }
        proof {
            assert(v@ =~= self@.subrange(addr as int, addr + length));
        }
        Ok(v)
    }

    /// The big-endian instruction word at `addr`; faults when `addr + 1` is
    /// outside the address space. Odd addresses are accepted: the primitive
    /// imposes no alignment.
    pub fn read_opcode(&self, addr: u16) -> (r: Result<u16, Fault>)
        requires
            self.wf(),
        ensures
            addr + 2 <= MEM_SIZE ==> r == Ok::<u16, Fault>(be_word(self@, addr as int)),
            addr + 2 > MEM_SIZE ==> r == Err::<u16, Fault>(Fault::OutOfBounds),
    {
        let start = addr as usize;
        if start > MEM_SIZE - 2 {
            return Err(Fault::OutOfBounds);
        }
        let hi = self.memory[start];
        let lo = self.memory[start + 1];
        Ok((hi as u16) * 256 + (lo as u16))
    }
}

} // verus!
