//! The register file and the instruction decoder.
//!
//! `Cpu` holds the program counter, the call stack, the sixteen byte
//! registers and the 16-bit index register. `fetch_decode` reads the
//! big-endian instruction word at the program counter and classifies it.

use vstd::prelude::*;

use crate::mem::{word_at, Memory, MEM_SIZE};

verus! {

/// A decoded instruction: one variant per opcode family, carrying the
/// decoded operand fields, with `Invalid` for anything unrecognized.
#[derive(Clone, Copy, Debug, PartialEq, Eq, Structural)]
pub enum Instruction {
    Invalid(u16),
    ClearScreen,
    Return,                  // 00EE
    Jump(u16),               // 1NNN
    Call(u16),               // 2NNN
    VxNNSkip(u16, u16),      // 3XNN
    VxNNNotSkip(u16, u16),   // 4XNN
    VxVySkip(u16, u16),      // 5XY0
    SetRegister(u16, u16),   // 6XNN
    AddRegister(u16, u16),   // 7XNN
    VxSetVy(u16, u16),       // 8XY0
    VxBitOrVy(u16, u16),     // 8XY1
    VxBitAndVy(u16, u16),    // 8XY2
    VxBitXOrVy(u16, u16),    // 8XY3
    VxBitAddVy(u16, u16),    // 8XY4
    VxSubVy(u16, u16),       // 8XY5
    VxBitShiftRVy(u16, u16), // 8XY6
    VxMinusVy(u16, u16),     // 8XY7
    VxBitShiftLVy(u16, u16), // 8XYE
    VxNotVySkip(u16, u16),   // 9XY0
    SetIndexRegister(u16),   // ANNN
    V0Jump(u16),             // BNNN
    VxRand(u16, u16),        // CXNN
    Draw(u8, u8, u16),       // DXYN
    KeyVxSkip(u16),          // EX9E
    KeyNotVxSkip(u16),       // EXA1
    SetTimerVx(u16),         // FX07
    GetKeyVx(u16),           // FX0A
    GetTimerVx(u16),         // FX15
    SetSoundTimerVx(u16),    // FX18
    AddIVx(u16),             // FX1E
    SetISprite(u16),         // FX29
    BCDVX(u16),              // FX33
    RegDump(u16),            // FX55
    RegLoad(u16),            // FX65
}

/// The mathematical state of the register file.
#[verifier::ext_equal]
pub struct CpuView {
    pub pc: u16,
    pub sp: int,
    pub stack: Seq<u16>,
    pub index: u16,
    pub v: Seq<u8>,
}

/// The exact decode mapping: classifies the instruction word `op` by its top
/// nibble, with the low byte or low nibble selecting sub-cases for the 0x0,
/// 0x5, 0x8, 0x9, 0xE and 0xF families. `v` is the register file (read by
/// the 0xB and 0xD families) and `rnd` the random byte folded into a 0xC
/// instruction's immediate.
pub open spec fn spec_decode(op: u16, v: Seq<u8>, rnd: u8) -> Instruction {
    let x = (op & 0x0F00) >> 8;
    let y = (op & 0x00F0) >> 4;
    let n = op & 0x000F;
    let nn = op & 0x00FF;
    let nnn = op & 0x0FFF;
    let top = op & 0xF000;
    if top == 0x0000 {
        if op == 0x00E0 {
            Instruction::ClearScreen
        } else if op == 0x00EE {
            Instruction::Return
        } else {
            Instruction::Invalid(op)
        }
    } else if top == 0x1000 {
        Instruction::Jump(nnn)
    } else if top == 0x2000 {
        Instruction::Call(nnn)
    } else if top == 0x3000 {
        Instruction::VxNNSkip(x, nn)
    } else if top == 0x4000 {
        Instruction::VxNNNotSkip(x, nn)
    } else if top == 0x5000 {
        if n == 0 {
            Instruction::VxVySkip(x, y)
        } else {
            Instruction::Invalid(op)
        }
    } else if top == 0x6000 {
        Instruction::SetRegister(x, nn)
    } else if top == 0x7000 {
        Instruction::AddRegister(x, nn)
    } else if top == 0x8000 {
        if n == 0x0 {
            Instruction::VxSetVy(x, y)
        } else if n == 0x1 {
            Instruction::VxBitOrVy(x, y)
        } else if n == 0x2 {
            Instruction::VxBitAndVy(x, y)
        } else if n == 0x3 {
            Instruction::VxBitXOrVy(x, y)
        } else if n == 0x4 {
            Instruction::VxBitAddVy(x, y)
        } else if n == 0x5 {
            Instruction::VxSubVy(x, y)
        } else if n == 0x6 {
            Instruction::VxBitShiftRVy(x, y)
        } else if n == 0x7 {
            Instruction::VxMinusVy(x, y)
        } else if n == 0xE {
            Instruction::VxBitShiftLVy(x, y)
        } else {
            Instruction::Invalid(op)
        }
    } else if top == 0x9000 {
        if n == 0 {
            Instruction::VxNotVySkip(x, y)
        } else {
            Instruction::Invalid(op)
        }
    } else if top == 0xA000 {
        Instruction::SetIndexRegister(nnn)
    } else if top == 0xB000 {
        // `+` binds tighter than `&`: the register is added to the whole
        // opcode before masking, as the engine has always computed it.
        Instruction::V0Jump(((v[0] + op) as u16) & 0x0FFF)
    } else if top == 0xC000 {
        Instruction::VxRand(x, nn & (rnd as u16))
    } else if top == 0xD000 {
        Instruction::Draw(v[x as int], v[y as int], n)
    } else if top == 0xE000 {
        if nn == 0x9E {
            Instruction::KeyVxSkip(x)
        } else if nn == 0xA1 {
            Instruction::KeyNotVxSkip(x)
        } else {
            Instruction::Invalid(op)
        }
    } else if top == 0xF000 {
        if nn == 0x07 {
            Instruction::SetTimerVx(x)
        } else if nn == 0x0A {
            Instruction::GetKeyVx(x)
        } else if nn == 0x15 {
            Instruction::GetTimerVx(x)
        } else if nn == 0x18 {
            Instruction::SetSoundTimerVx(x)
        } else if nn == 0x1E {
            Instruction::AddIVx(x)
        } else if nn == 0x29 {
            Instruction::SetISprite(x)
        } else if nn == 0x33 {
            Instruction::BCDVX(x)
        } else if nn == 0x55 {
            Instruction::RegDump(x)
        } else if nn == 0x65 {
            Instruction::RegLoad(x)
        } else {
            Instruction::Invalid(op)
        }
    } else {
        Instruction::Invalid(op)
    }
}

/// Only a 0xC instruction folds the random byte into its immediate: for
/// every other word the decode does not depend on it.
pub proof fn lemma_decode_rnd_independent(op: u16, v: Seq<u8>, r1: u8, r2: u8)
    requires
        op & 0xF000 != 0xC000,
    ensures
        spec_decode(op, v, r1) == spec_decode(op, v, r2),
{
}

/// Relies on rand::random: one byte drawn from the thread-local generator.
/// Nothing is promised of the value.
#[verifier::external_body]
fn random_byte() -> u8 {
    rand::random::<u8>()
}

pub struct Cpu {
    pc: u16,
    sp: usize,
    stack: [u16; 64],
    index: u16,
    v: [u8; 16],
}

impl View for Cpu {
    type V = CpuView;

    closed spec fn view(&self) -> CpuView {
        CpuView {
            pc: self.pc,
            sp: self.sp as int,
            stack: self.stack@,
            index: self.index,
            v: self.v@,
        }
    }
}

impl Cpu {
    /// A reset register file: execution starts at `PROGRAM_START`, the stack
    /// is empty and every register is zero.
    pub fn new() -> (cpu: Cpu)
        ensures
            cpu@.pc == 0x200,
            cpu@.sp == 0,
            cpu@.index == 0,
            cpu@.stack == Seq::new(64, |i: int| 0u16),
            cpu@.v == Seq::new(16, |i: int| 0u8),
    {
        let cpu = Cpu {
            pc: 0x200,
            index: 0,
            sp: 0,
            stack: [0; 64],
            v: [0; 16],
        };
        proof {
            assert(cpu@.stack =~= Seq::new(64, |i: int| 0u16));
            assert(cpu@.v =~= Seq::new(16, |i: int| 0u8));
        }
        cpu
    }

    /// The index register.
    pub fn index(&self) -> (i: u16)
        ensures
            i == self@.index,
    {
        self.index
    }

    /// The program counter.
    pub(crate) fn pc(&self) -> (p: u16)
        ensures
            p == self@.pc,
    {
        self.pc
    }

    /// The stack depth.
    pub(crate) fn sp(&self) -> (s: usize)
        ensures
            s == self@.sp,
    {
        self.sp
    }

    /// The stack entry at depth `k`.
    pub(crate) fn stack_at(&self, k: usize) -> (e: u16)
        requires
            k < 64,
        ensures
            e == self@.stack[k as int],
    {
        self.stack[k]
    }

    fn unpack3(instr: u16) -> (r: (u16, u16, u16))
        ensures
            r.0 == (instr & 0x0F00) >> 8,
            r.1 == (instr & 0x00F0) >> 4,
            r.2 == instr & 0x000F,
    {
        let n1 = instr & 0x000F;
        let n2 = (instr & 0x00F0) >> 4;
        let n3 = (instr & 0x0F00) >> 8;
        (n3, n2, n1)
    }

    fn unpack2(instr: u16) -> (r: (u16, u16))
        ensures
            r.0 == (instr & 0x0F00) >> 8,
            r.1 == instr & 0x00FF,
    {
        let n = instr & 0x00FF;
        let n3 = (instr & 0x0F00) >> 8;
        (n3, n)
    }

    /// Advances the program counter past one instruction word.
    pub fn inc_pc(&mut self)
        requires
            old(self)@.pc + 2 <= u16::MAX,
        ensures
            final(self)@ == (CpuView { pc: (old(self)@.pc + 2) as u16, ..old(self)@ }),
    {
        self.pc += 2;
    }

    /// Pops the return address from the stack and resumes past the call.
    pub fn return_to_sp(&mut self)
        requires
            1 <= old(self)@.sp <= 64,
            old(self)@.stack[old(self)@.sp - 1] + 2 <= u16::MAX,
        ensures
            final(self)@ == (CpuView {
                pc: (old(self)@.stack[old(self)@.sp - 1] + 2) as u16,
                sp: old(self)@.sp - 1,
                ..old(self)@
            }),
    {
        self.sp -= 1;
        self.pc = self.stack[self.sp];
        self.pc += 2;
    }

    /// Sets the index register.
    pub fn set_index(&mut self, addr: u16)
        ensures
            final(self)@ == (CpuView { index: addr, ..old(self)@ }),
    {
        self.index = addr;
    }

    /// Writes `val` into register `index`.
    pub fn set_v(&mut self, val: u8, index: usize)
        requires
            index < 16,
        ensures
            final(self)@ == (CpuView { v: old(self)@.v.update(index as int, val), ..old(self)@ }),
    {
        self.v[index] = val
    }

    /// Reads register `index`.
    pub fn get_v(&self, index: usize) -> (val: u8)
        requires
            index < 16,
        ensures
            val == self@.v[index as int],
    {
        self.v[index]
    }

    /// Jumps: sets the program counter to `addr`.
    pub fn jump(&mut self, addr: u16)
        ensures
            final(self)@ == (CpuView { pc: addr, ..old(self)@ }),
    {
        self.pc = addr
    }

    /// Calls: pushes the current program counter and jumps to the 12-bit
    /// address.
    pub fn jump_store(&mut self, addr: u16)
        requires
            0 <= old(self)@.sp < 64,
        ensures
            final(self)@ == (CpuView {
                pc: addr & 0x0FFF,
                sp: old(self)@.sp + 1,
                stack: old(self)@.stack.update(old(self)@.sp, old(self)@.pc),
                ..old(self)@
            }),
    {
        self.stack[self.sp] = self.pc;
        self.sp += 1;
        self.pc = addr & 0x0FFF;
    }

    /// Classifies an instruction word, with `rnd` as the random byte for a
    /// 0xC instruction. The result is exactly `spec_decode`.
    pub fn decode_word(&self, opcode: u16, rnd: u8) -> (instr: Instruction)
        ensures
            instr == spec_decode(opcode, self@.v, rnd),
    {
        proof {
            assert((opcode & 0x0F00) >> 8 < 16 && (opcode & 0x00F0) >> 4 < 16) by (bit_vector);
        }
        match opcode & 0xF000 {
            0x0000 => {
                match opcode {
                    0x00E0 => Instruction::ClearScreen,
                    0x00EE => Instruction::Return,
                    _ => Instruction::Invalid(opcode), // machine code
                }
            }
            0x1000 => Instruction::Jump(opcode & 0x0FFF),
            0x2000 => Instruction::Call(opcode & 0x0FFF),
            0x3000 => {
                let (x, n) = Self::unpack2(opcode);
                Instruction::VxNNSkip(x, n)
            }
            0x4000 => {
                let (x, n) = Self::unpack2(opcode);
                Instruction::VxNNNotSkip(x, n)
            }
            0x5000 => {
                if opcode & 0x000F == 0 {
                    Instruction::VxVySkip((opcode & 0x0F00) >> 8, (opcode & 0x00F0) >> 4)
                } else {
                    Instruction::Invalid(opcode)
                }
            }
            0x6000 => {
                let (x, n) = Self::unpack2(opcode);
                Instruction::SetRegister(x, n)
            }
            0x7000 => {
                let (x, nn) = Self::unpack2(opcode);
                Instruction::AddRegister(x, nn)
            }
            0x8000 => {
                let (x, y, _) = Self::unpack3(opcode);
                match opcode & 0x000F {
                    0x0 => Instruction::VxSetVy(x, y),
                    0x1 => Instruction::VxBitOrVy(x, y),
                    0x2 => Instruction::VxBitAndVy(x, y),
                    0x3 => Instruction::VxBitXOrVy(x, y),
                    0x4 => Instruction::VxBitAddVy(x, y),
                    0x5 => Instruction::VxSubVy(x, y),
                    0x6 => Instruction::VxBitShiftRVy(x, y),
                    0x7 => Instruction::VxMinusVy(x, y),
                    0xE => Instruction::VxBitShiftLVy(x, y),
                    _ => Instruction::Invalid(opcode),
                }
            }
            0x9000 => {
                if opcode & 0x000F == 0 {
                    let (x, y, _) = Self::unpack3(opcode);
                    Instruction::VxNotVySkip(x, y)
                } else {
                    Instruction::Invalid(opcode)
                }
            }
            0xA000 => Instruction::SetIndexRegister(opcode & 0x0FFF),
            0xB000 => {
                proof {
                    assert(opcode & 0xF000 == 0xB000 ==> opcode <= 0xBFFF) by (bit_vector);
                }
                Instruction::V0Jump((self.v[0] as u16 + opcode) & 0x0FFF)
            }
            0xC000 => {
                let (x, nn) = Self::unpack2(opcode);
                Instruction::VxRand(x, nn & (rnd as u16))
            }
            0xD000 => {
                let (x, y, n) = Self::unpack3(opcode);
                Instruction::Draw(self.v[x as usize], self.v[y as usize], n)
            }
            0xE000 => {
                let x = (opcode & 0x0F00) >> 8;
                match opcode & 0x00FF {
                    0x009E => Instruction::KeyVxSkip(x),
                    0x00A1 => Instruction::KeyNotVxSkip(x),
                    _ => Instruction::Invalid(opcode),
                }
            }
            0xF000 => {
                let x = (opcode & 0x0F00) >> 8;
                match opcode & 0x00FF {
                    0x0007 => Instruction::SetTimerVx(x),
                    0x000A => Instruction::GetKeyVx(x),
                    0x0015 => Instruction::GetTimerVx(x),
                    0x0018 => Instruction::SetSoundTimerVx(x),
                    0x001E => Instruction::AddIVx(x),
                    0x0029 => Instruction::SetISprite(x),
                    0x0033 => Instruction::BCDVX(x),
                    0x0055 => Instruction::RegDump(x),
                    0x0065 => Instruction::RegLoad(x),
                    _ => Instruction::Invalid(opcode),
                }
            }
            _ => Instruction::Invalid(opcode), // machine code
        }
    }

    /// Reads the instruction word at the program counter and classifies it.
    /// A 0xC instruction folds in a fresh random byte, so the result is
    /// `spec_decode` at some byte.
    pub fn fetch_decode(&self, mem: &Memory) -> (instr: Instruction)
        requires
            self@.pc + 1 < MEM_SIZE,
        ensures
            exists|rnd: u8|
                instr == spec_decode(word_at(mem@, self@.pc as int), self@.v, rnd),
    {
        let opcode = mem.get_instruction(self.pc);
        let rnd = random_byte();
        let instr = self.decode_word(opcode, rnd);
        proof {
            assert(instr == spec_decode(word_at(mem@, self@.pc as int), self@.v, rnd));
        }
        instr
    }
}

} // verus!
