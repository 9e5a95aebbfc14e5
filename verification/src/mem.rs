//! Byte-addressable storage: a fixed 4096-byte array holding the built-in
//! font sprites at low addresses and the loaded program image from 0x200 on.

use vstd::prelude::*;

verus! {

/// Number of bytes of storage.
pub const MEM_SIZE: usize = 4096;

/// Offset at which a program image is loaded.
pub const PROGRAM_START: usize = 0x200;

/// The built-in font table: five bytes of sprite rows for each of the
/// sixteen hexadecimal digits, resident at addresses 0x000..0x050.
pub open spec fn font_table() -> Seq<u8> {
    seq![
        0xF0u8, 0x90, 0x90, 0x90, 0xF0, // 0
        0x20, 0x60, 0x20, 0x20, 0x70, // 1
        0xF0, 0x10, 0xF0, 0x80, 0xF0, // 2
        0xF0, 0x10, 0xF0, 0x10, 0xF0, // 3
        0x90, 0x90, 0xF0, 0x10, 0x10, // 4
        0xF0, 0x80, 0xF0, 0x10, 0xF0, // 5
        0xF0, 0x80, 0xF0, 0x90, 0xF0, // 6
        0xF0, 0x10, 0x20, 0x40, 0x40, // 7
        0xF0, 0x90, 0xF0, 0x90, 0xF0, // 8
        0xF0, 0x90, 0xF0, 0x10, 0xF0, // 9
        0xF0, 0x90, 0xF0, 0x90, 0x90, // A
        0xE0, 0x90, 0xE0, 0x90, 0xE0, // B
        0xF0, 0x80, 0x80, 0x80, 0xF0, // C
        0xE0, 0x90, 0x90, 0x90, 0xE0, // D
        0xF0, 0x80, 0xF0, 0x80, 0xF0, // E
        0xF0, 0x80, 0xF0, 0x80, 0x80, // F
    ]
}

/// The big-endian 16-bit instruction word formed by the bytes at `pc` and
/// `pc + 1`.
pub open spec fn word_at(m: Seq<u8>, pc: int) -> u16 {
    (m[pc] * 256 + m[pc + 1]) as u16
}

pub struct Memory {
    bytes: [u8; MEM_SIZE],
}

impl View for Memory {
    type V = Seq<u8>;

    closed spec fn view(&self) -> Seq<u8> {
        self.bytes@
    }
}

impl Memory {
    /// Fresh storage: the font table at the low addresses, zero elsewhere.
    pub fn new() -> (m: Memory)
        ensures
            m@.len() == MEM_SIZE,
            forall|i: int| 0 <= i < 80 ==> m@[i] == font_table()[i],
            forall|i: int| 80 <= i < MEM_SIZE ==> m@[i] == 0u8,
    {
        let font: [u8; 80] = [
            0xF0, 0x90, 0x90, 0x90, 0xF0, // 0
            0x20, 0x60, 0x20, 0x20, 0x70, // 1
            0xF0, 0x10, 0xF0, 0x80, 0xF0, // 2
            0xF0, 0x10, 0xF0, 0x10, 0xF0, // 3
            0x90, 0x90, 0xF0, 0x10, 0x10, // 4
            0xF0, 0x80, 0xF0, 0x10, 0xF0, // 5
            0xF0, 0x80, 0xF0, 0x90, 0xF0, // 6
            0xF0, 0x10, 0x20, 0x40, 0x40, // 7
            0xF0, 0x90, 0xF0, 0x90, 0xF0, // 8
            0xF0, 0x90, 0xF0, 0x10, 0xF0, // 9
            0xF0, 0x90, 0xF0, 0x90, 0x90, // A
            0xE0, 0x90, 0xE0, 0x90, 0xE0, // B
            0xF0, 0x80, 0x80, 0x80, 0xF0, // C
            0xE0, 0x90, 0x90, 0x90, 0xE0, // D
            0xF0, 0x80, 0xF0, 0x80, 0xF0, // E
            0xF0, 0x80, 0xF0, 0x80, 0x80, // F
        ];
        assert(font@ =~= font_table());
        let mut bytes: [u8; MEM_SIZE] = [0; MEM_SIZE];
        let mut i: usize = 0;
        while i < 80
            invariant
                i <= 80,
                font@ == font_table(),
                forall|j: int| 0 <= j < i ==> bytes@[j] == font_table()[j],
                forall|j: int| i <= j < MEM_SIZE ==> bytes@[j] == 0u8,
            decreases 80 - i,
        {
            bytes[i] = font[i];
            i += 1;
        }
        Memory { bytes }
    }

    /// Copies a program image into storage starting at `PROGRAM_START`.
    pub fn load(&mut self, data: Vec<u8>)
        requires
            old(self)@.len() == MEM_SIZE,
            PROGRAM_START + data@.len() <= MEM_SIZE,
        ensures
            final(self)@.len() == MEM_SIZE,
            forall|i: int|
                0 <= i < data@.len() ==> final(self)@[PROGRAM_START + i] == data@[i],
            forall|i: int|
                0 <= i < MEM_SIZE && !(PROGRAM_START <= i < PROGRAM_START + data@.len())
                    ==> final(self)@[i] == old(self)@[i],
    {
        let mut i: usize = 0;
        while i < data.len()
            invariant
                i <= data@.len(),
                PROGRAM_START + data@.len() <= MEM_SIZE,
                self@.len() == MEM_SIZE,
                forall|j: int| 0 <= j < i ==> self@[PROGRAM_START + j] == data@[j],
                forall|j: int|
                    0 <= j < MEM_SIZE && !(PROGRAM_START <= j < PROGRAM_START + i)
                        ==> self@[j] == old(self)@[j],
            decreases data@.len() - i,
        {
            self.bytes[PROGRAM_START + i] = data[i];
            i += 1;
        }
    }

    /// The byte stored at `address`.
    pub fn get_byte(&self, address: u16) -> (b: u8)
        requires
            address < MEM_SIZE,
        ensures
            b == self@[address as int],
    {
        self.bytes[address as usize]
    }

    /// Stores `value` at `address`.
    pub fn set(&mut self, address: usize, value: u8)
        requires
            address < MEM_SIZE,
        ensures
            final(self)@ == old(self)@.update(address as int, value),
    {
        self.bytes[address] = value;
    }

    /// The big-endian instruction word at `pc`: the byte at `pc` is the high
    /// byte, the byte at `pc + 1` the low byte.
    pub fn get_instruction(&self, pc: u16) -> (w: u16)
        requires
            pc + 1 < MEM_SIZE,
        ensures
            w == word_at(self@, pc as int),
    {
        let hi = self.bytes[pc as usize];
        let lo = self.bytes[(pc + 1) as usize];
        let w = ((hi as u16) << 8) | (lo as u16);
        assert(w == hi * 256 + lo) by (bit_vector)
            requires
                w == ((hi as u16) << 8) | (lo as u16),
        ;
        w
    }
}

} // verus!
