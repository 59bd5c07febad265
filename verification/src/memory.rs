use vstd::prelude::*;

verus! {

/// Number of 16-bit words in the machine's address space.
pub const MEMORY_SIZE: usize = 65536;

/// Address of the keyboard status register.
pub const KBSR: u16 = 0xFE00;

/// Address of the keyboard data register.
pub const KBDR: u16 = 0xFE02;

/// The memory-mapped device registers.
#[derive(Clone, Copy, Debug, PartialEq, Eq, Structural)]
pub enum MemRegister {
    /// Keyboard status.
    KBSR,
    /// Keyboard data.
    KBDR,
}

impl MemRegister {
    pub open spec fn spec_address(self) -> u16 {
        match self {
            MemRegister::KBSR => KBSR,
            MemRegister::KBDR => KBDR,
        }
    }

    /// The address at which the register is mapped.
    pub fn address(&self) -> (a: u16)
        ensures
            a == self.spec_address(),
    {
        match self {
            MemRegister::KBSR => KBSR,
            MemRegister::KBDR => KBDR,
        }
    }
}

/// Returned by a read of the keyboard status register when no key byte was supplied:
/// the read cannot complete until the caller provides the next byte of keyboard input.
#[derive(Clone, Copy, Debug, PartialEq, Eq, Structural)]
pub struct KeyNeeded;

/// The memory after the keyboard has been polled and produced `key`: a non-zero byte
/// marks the status register ready (bit 15) and lands in the data register; a zero byte
/// clears the status register.
pub open spec fn polled(mem: Seq<u16>, key: u8) -> Seq<u16> {
    if key != 0 {
        mem.update(KBSR as int, 0x8000).update(KBDR as int, key as u16)
    } else {
        mem.update(KBSR as int, 0)
    }
}

/// The memory after a read of `addr` with `key` as the pending keyboard byte: only a read
/// of the keyboard status register polls the keyboard.
pub open spec fn after_read(mem: Seq<u16>, addr: u16, key: u8) -> Seq<u16> {
    if addr == KBSR {
        polled(mem, key)
    } else {
        mem
    }
}

/// A read of `addr` needs a keyboard byte exactly when it reads the status register.
pub open spec fn read_needs_key(addr: u16) -> bool {
    addr == KBSR
}

/// The pending keyboard byte, where one was given; its value matters only to reads that
/// poll the keyboard.
pub open spec fn key_byte(key: Option<u8>) -> u8 {
    match key {
        Some(b) => b,
        None => 0,
    }
}

/// The full address space of the machine: one 16-bit word per 16-bit address.
pub struct Memory([u16; 65536]);

impl View for Memory {
    type V = Seq<u16>;

    closed spec fn view(&self) -> Seq<u16> {
        self.0@
    }
}

/// A memory always holds exactly one word per address.
pub broadcast proof fn lemma_memory_len(m: &Memory)
    ensures
        #[trigger] m@.len() == MEMORY_SIZE,
{
}

impl Memory {
    /// A memory whose every word is zero.
    pub fn new() -> (m: Self)
        ensures
            m@.len() == MEMORY_SIZE,
            forall|a: int| 0 <= a < MEMORY_SIZE ==> m@[a] == 0,
    {
        Memory([0u16; 65536])
    }


    /// All words, in address order.
    pub fn raw(&self) -> (r: &[u16])
        ensures
            r@ == self@,
    {
        &self.0
    }

    /// All words, in address order, for writing in place.
    pub fn raw_mut(&mut self) -> (r: &mut [u16])
        ensures
            r@ == old(self)@,
            final(self)@ == final(r)@,
    {
        &mut self.0
    }

    /// Stores `val` at `addr`; nothing else changes.
    pub fn memory_write(&mut self, addr: u16, val: u16)
        ensures
            final(self)@ == old(self)@.update(addr as int, val),
    {
        self.0[addr as usize] = val;
    }

    /// Applies a keyboard poll that produced `key` (see `polled`).
    fn poll_keyboard(&mut self, key: u8)
        ensures
            final(self)@ == polled(old(self)@, key),
    {
        if key != 0 {
            self.0[KBSR as usize] = 0x8000;
            self.0[KBDR as usize] = key as u16;
        } else {
            self.0[KBSR as usize] = 0;
        }
    }

    /// Reads the word at `addr`. A read of the keyboard status register first polls the
    /// keyboard, which takes the pending keyboard byte `key`; without one, that read is
    /// refused with `KeyNeeded` and the memory is left as it was. Any other read ignores
    /// `key` and changes nothing.
    pub fn memory_read(&mut self, addr: u16, key: Option<u8>) -> (r: Result<u16, KeyNeeded>)
        ensures
            r is Err <==> (read_needs_key(addr) && key is None),
            r is Err ==> final(self)@ == old(self)@,
            r matches Ok(v) ==> {
                &&& final(self)@ == after_read(old(self)@, addr, key_byte(key))
                &&& v == final(self)@[addr as int]
            },
    {
        if addr == KBSR {
            match key {
                Some(b) => self.poll_keyboard(b),
                None => return Err(KeyNeeded),
            }
        }
        Ok(self.0[addr as usize])
    }
}

/// A write followed by a read of the same address gives back the written value, unless
/// the address is the keyboard status register, whose reads poll the keyboard.
pub proof fn lemma_read_after_write(mem: Seq<u16>, addr: u16, val: u16, key: u8)
    requires
        mem.len() == MEMORY_SIZE,
        addr != KBSR,
    ensures
        after_read(mem.update(addr as int, val), addr, key)[addr as int] == val,
        after_read(mem.update(addr as int, val), addr, key) == mem.update(addr as int, val),
{
}

/// A write leaves every other address as it was, and a read of an address other than the
/// keyboard status register changes nothing.
pub proof fn lemma_write_frame(mem: Seq<u16>, addr: u16, val: u16, other: u16, key: u8)
    requires
        mem.len() == MEMORY_SIZE,
        other != addr,
        other != KBSR,
    ensures
        after_read(mem.update(addr as int, val), other, key)[other as int] == mem[other as int],
{
}

} // verus!
