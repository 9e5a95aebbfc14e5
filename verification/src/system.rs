//! The execution engine: one `tick` fetches, decodes and executes a single
//! instruction, then decrements the two countdown timers.
//!
//! The whole machine state is modelled by `SystemView`, and a tick's effect
//! by the transition function `step`. The only part of a tick outside the
//! model is the random byte a 0xC instruction folds in: `tick` promises its
//! outcome is `step` at some byte, and `execute` is the exact, deterministic
//! remainder once the decoded instruction is in hand.

use vstd::prelude::*;

use crate::cpu::lemma_decode_rnd_independent;
use crate::cpu::spec_decode;
use crate::cpu::Cpu;
use crate::cpu::CpuView;
use crate::cpu::Instruction;
use crate::mem::font_table;
use crate::mem::word_at;
use crate::mem::Memory;
use crate::mem::MEM_SIZE;
use crate::mem::PROGRAM_START;
use crate::video::blit;
use crate::video::blit_collides;
use crate::video::Video;
use crate::video::PIXEL_COUNT;
use crate::video::SCREEN_HEIGHT;
use crate::video::SCREEN_WIDTH;

verus! {

/// The mathematical state of the whole machine.
#[verifier::ext_equal]
pub struct SystemView {
    pub cpu: CpuView,
    pub mem: Seq<u8>,
    pub pixels: Seq<u8>,
    pub should_draw: bool,
    pub should_play_sound: bool,
    pub delay: u8,
    pub sound: u8,
}

/// Dimensions of the machine: register, stack, memory and pixel counts, and
/// the stack pointer within its capacity.
pub open spec fn sys_wf(s: SystemView) -> bool {
    &&& s.cpu.v.len() == 16
    &&& s.cpu.stack.len() == 64
    &&& 0 <= s.cpu.sp <= 64
    &&& s.mem.len() == MEM_SIZE
    &&& s.pixels.len() == PIXEL_COUNT
}

/// Whether some key among the first `n` is pressed.
pub open spec fn any_pressed(keys: Seq<bool>, n: int) -> bool {
    exists|k: int| 0 <= k < n && keys[k]
}

/// The highest pressed key index among the first `n` (0 if none is).
pub open spec fn last_pressed(keys: Seq<bool>, n: int) -> int
    decreases n,
{
    if n <= 0 {
        0
    } else if keys[n - 1] {
        n - 1
    } else {
        last_pressed(keys, n - 1)
    }
}

/// The register file with the program counter advanced past one word.
pub open spec fn advanced(c: CpuView) -> CpuView {
    CpuView { pc: (c.pc + 2) as u16, ..c }
}

/// The effect of one decoded instruction on the machine state, before the
/// timer decrement. Every variant owns its program-counter policy: jumps,
/// calls, returns and the key wait set or keep the counter themselves, all
/// others advance it by one word (skips by two).
pub open spec fn exec_instr(s: SystemView, keys: Seq<bool>, instr: Instruction) -> SystemView {
    match instr {
        Instruction::Invalid(_) => SystemView { cpu: advanced(s.cpu), ..s },
        Instruction::ClearScreen => SystemView {
            cpu: advanced(s.cpu),
            pixels: Seq::new(s.pixels.len(), |p: int| 0u8),
            should_draw: true,
            ..s
        },
        Instruction::Return => SystemView {
            cpu: CpuView {
                pc: (s.cpu.stack[s.cpu.sp - 1] + 2) as u16,
                sp: s.cpu.sp - 1,
                ..s.cpu
            },
            ..s
        },
        Instruction::Jump(addr) => SystemView { cpu: CpuView { pc: addr, ..s.cpu }, ..s },
        Instruction::Call(addr) => SystemView {
            cpu: CpuView {
                pc: addr & 0x0FFF,
                sp: s.cpu.sp + 1,
                stack: s.cpu.stack.update(s.cpu.sp, s.cpu.pc),
                ..s.cpu
            },
            ..s
        },
        Instruction::Draw(x, y, n) => SystemView {
            cpu: CpuView {
                v: advanced(s.cpu).v.update(
                    15,
                    if blit_collides(s.pixels, s.mem, x, y, n, s.cpu.index) {
                        1u8
                    } else {
                        0u8
                    },
                ),
                ..advanced(s.cpu)
            },
            pixels: blit(s.pixels, s.mem, x, y, n, s.cpu.index),
            should_draw: true,
            ..s
        },
        Instruction::VxNNSkip(x, nn) => SystemView {
            cpu: CpuView {
                pc: (s.cpu.pc + (if s.cpu.v[x as int] == nn as u8 {
                    4int
                } else {
                    2int
                })) as u16,
                ..s.cpu
            },
            ..s
        },
        Instruction::VxNNNotSkip(x, nn) => SystemView {
            cpu: CpuView {
                pc: (s.cpu.pc + (if s.cpu.v[x as int] != nn as u8 {
                    4int
                } else {
                    2int
                })) as u16,
                ..s.cpu
            },
            ..s
        },
        Instruction::VxVySkip(x, y) => SystemView {
            cpu: CpuView {
                pc: (s.cpu.pc + (if s.cpu.v[x as int] == s.cpu.v[y as int] {
                    4int
                } else {
                    2int
                })) as u16,
                ..s.cpu
            },
            ..s
        },
        Instruction::SetRegister(x, nn) => SystemView {
            cpu: CpuView { v: s.cpu.v.update(x as int, nn as u8), ..advanced(s.cpu) },
            ..s
        },
        Instruction::AddRegister(x, nn) => SystemView {
            cpu: CpuView {
                v: s.cpu.v.update(x as int, ((s.cpu.v[x as int] + (nn as u8)) % 256) as u8),
                ..advanced(s.cpu)
            },
            ..s
        },
        Instruction::VxSetVy(x, y) => SystemView {
            cpu: CpuView { v: s.cpu.v.update(x as int, s.cpu.v[y as int]), ..advanced(s.cpu) },
            ..s
        },
        Instruction::VxBitOrVy(x, y) => SystemView {
            cpu: CpuView {
                v: s.cpu.v.update(x as int, s.cpu.v[x as int] | s.cpu.v[y as int]),
                ..advanced(s.cpu)
            },
            ..s
        },
        Instruction::VxBitAndVy(x, y) => SystemView {
            cpu: CpuView {
                v: s.cpu.v.update(x as int, s.cpu.v[x as int] & s.cpu.v[y as int]),
                ..advanced(s.cpu)
            },
            ..s
        },
        Instruction::VxBitXOrVy(x, y) => SystemView {
            cpu: CpuView {
                v: s.cpu.v.update(x as int, s.cpu.v[x as int] ^ s.cpu.v[y as int]),
                ..advanced(s.cpu)
            },
            ..s
        },
        Instruction::VxBitAddVy(x, y) => {
            let a = s.cpu.v[x as int];
            let b = s.cpu.v[y as int];
            SystemView {
                cpu: CpuView {
                    v: s.cpu.v.update(15, if a + b > 255 {
                        1u8
                    } else {
                        0u8
                    }).update(x as int, ((a + b) % 256) as u8),
                    ..advanced(s.cpu)
                },
                ..s
            }
        },
        Instruction::VxSubVy(x, y) => {
            let a = s.cpu.v[x as int];
            let b = s.cpu.v[y as int];
            SystemView {
                cpu: CpuView {
                    v: s.cpu.v.update(15, if b > a {
                        0u8
                    } else {
                        1u8
                    }).update(x as int, ((a - b) % 256) as u8),
                    ..advanced(s.cpu)
                },
                ..s
            }
        },
        Instruction::VxBitShiftRVy(x, _) => {
            let a = s.cpu.v[x as int];
            SystemView {
                cpu: CpuView {
                    v: s.cpu.v.update(15, a & 1).update(x as int, a >> 1),
                    ..advanced(s.cpu)
                },
                ..s
            }
        },
        Instruction::VxBitShiftLVy(x, _) => {
            let a = s.cpu.v[x as int];
            SystemView {
                cpu: CpuView {
                    v: s.cpu.v.update(15, a & 8).update(x as int, a << 1),
                    ..advanced(s.cpu)
                },
                ..s
            }
        },
        Instruction::VxMinusVy(x, y) => {
            let a = s.cpu.v[x as int];
            let b = s.cpu.v[y as int];
            SystemView {
                cpu: CpuView {
                    v: s.cpu.v.update(15, if a > b {
                        0u8
                    } else {
                        1u8
                    }).update(x as int, ((b - a) % 256) as u8),
                    ..advanced(s.cpu)
                },
                ..s
            }
        },
        Instruction::VxNotVySkip(x, y) => SystemView {
            cpu: CpuView {
                pc: (s.cpu.pc + (if s.cpu.v[x as int] != s.cpu.v[y as int] {
                    4int
                } else {
                    2int
                })) as u16,
                ..s.cpu
            },
            ..s
        },
        Instruction::SetIndexRegister(nnn) => SystemView {
            cpu: CpuView { index: nnn, ..advanced(s.cpu) },
            ..s
        },
        Instruction::V0Jump(addr) => SystemView { cpu: CpuView { pc: addr, ..s.cpu }, ..s },
        Instruction::VxRand(x, n) => SystemView {
            cpu: CpuView { v: s.cpu.v.update(x as int, n as u8), ..advanced(s.cpu) },
            ..s
        },
        Instruction::KeyVxSkip(x) => {
            let key = s.cpu.v[x as int];
            SystemView {
                cpu: CpuView {
                    pc: (s.cpu.pc + (if key <= 0xF && keys[key as int] {
                        4int
                    } else {
                        2int
                    })) as u16,
                    ..s.cpu
                },
                ..s
            }
        },
        Instruction::KeyNotVxSkip(x) => {
            let key = s.cpu.v[x as int];
            SystemView {
                cpu: CpuView {
                    pc: (s.cpu.pc + (if key <= 0xF && !keys[key as int] {
                        4int
                    } else {
                        2int
                    })) as u16,
                    ..s.cpu
                },
                ..s
            }
        },
        Instruction::GetKeyVx(x) => {
            if any_pressed(keys, 16) {
                SystemView {
                    cpu: CpuView {
                        v: s.cpu.v.update(x as int, last_pressed(keys, 16) as u8),
                        ..advanced(s.cpu)
                    },
                    ..s
                }
            } else {
                SystemView {
                    cpu: CpuView { v: s.cpu.v, ..s.cpu },
                    ..s
                }
            }
        },
        Instruction::SetTimerVx(x) => SystemView {
            cpu: CpuView { v: s.cpu.v.update(x as int, s.delay), ..advanced(s.cpu) },
            ..s
        },
        Instruction::GetTimerVx(x) => SystemView {
            cpu: advanced(s.cpu),
            delay: s.cpu.v[x as int],
            ..s
        },
        Instruction::SetSoundTimerVx(x) => SystemView {
            cpu: advanced(s.cpu),
            sound: s.cpu.v[x as int],
            ..s
        },
        Instruction::AddIVx(x) => SystemView {
            cpu: CpuView {
                v: s.cpu.v.update(15, if s.cpu.v[x as int] + s.cpu.index > 0xFFF {
                    1u8
                } else {
                    0u8
                }),
                index: (s.cpu.v[x as int] + s.cpu.index) as u16,
                ..advanced(s.cpu)
            },
            ..s
        },
        Instruction::SetISprite(x) => SystemView {
            cpu: CpuView { index: (s.cpu.v[x as int] * 5) as u16, ..advanced(s.cpu) },
            ..s
        },
        Instruction::BCDVX(x) => {
            let vx = s.cpu.v[x as int];
            let i = s.cpu.index as int;
            SystemView {
                cpu: advanced(s.cpu),
                mem: s.mem.update(i, vx / 100).update(i + 1, (vx / 10) % 10).update(
                    i + 2,
                    (vx % 100) % 10,
                ),
                ..s
            }
        },
        Instruction::RegDump(x) => SystemView {
            cpu: CpuView {
                index: (x + s.cpu.index + 1) as u16,
                ..advanced(s.cpu)
            },
            mem: Seq::new(
                s.mem.len(),
                |j: int|
                    if s.cpu.index <= j <= s.cpu.index + x {
                        s.cpu.v[j - s.cpu.index]
                    } else {
                        s.mem[j]
                    },
            ),
            ..s
        },
        Instruction::RegLoad(x) => SystemView {
            cpu: CpuView {
                index: (x + s.cpu.index + 1) as u16,
                v: Seq::new(
                    16,
                    |r: int|
                        if 0 <= r <= x {
                            s.mem[s.cpu.index + r]
                        } else {
                            s.cpu.v[r]
                        },
                ),
                ..advanced(s.cpu)
            },
            ..s
        },
    }
}

/// The timer rule closing every tick: each counter above zero goes down by
/// one, and the sound flag reports whether the sound timer stood at 1 before
/// its decrement.
pub open spec fn tick_timers(s: SystemView) -> SystemView {
    SystemView {
        delay: if s.delay > 0 {
            (s.delay - 1) as u8
        } else {
            s.delay
        },
        sound: if s.sound > 0 {
            (s.sound - 1) as u8
        } else {
            s.sound
        },
        should_play_sound: s.sound == 1,
        ..s
    }
}

/// One whole tick at a decoded instruction: the instruction's effect
/// followed by the timer decrement.
pub open spec fn step(s: SystemView, keys: Seq<bool>, instr: Instruction) -> SystemView {
    tick_timers(exec_instr(s, keys, instr))
}

/// The machine-limit conditions under which executing `instr` stays inside
/// every bound: register operands below 16, the stack neither empty on
/// return nor full on call, and every memory address touched below the
/// memory size. Anything outside these is a programming error of the loaded
/// program, left undefined.
pub open spec fn exec_ok(s: SystemView, instr: Instruction) -> bool {
    &&& s.cpu.pc + 4 <= u16::MAX
    &&& match instr {
        Instruction::Invalid(_) => true,
        Instruction::ClearScreen => true,
        Instruction::Return => 1 <= s.cpu.sp <= 64 && s.cpu.stack[s.cpu.sp - 1] + 2 <= u16::MAX,
        Instruction::Jump(_) => true,
        Instruction::Call(_) => 0 <= s.cpu.sp < 64,
        Instruction::Draw(_, _, n) => n <= 15 && s.cpu.index + n <= MEM_SIZE,
        Instruction::VxNNSkip(x, _) => x < 16,
        Instruction::VxNNNotSkip(x, _) => x < 16,
        Instruction::VxVySkip(x, y) => x < 16 && y < 16,
        Instruction::SetRegister(x, _) => x < 16,
        Instruction::AddRegister(x, _) => x < 16,
        Instruction::VxSetVy(x, y) => x < 16 && y < 16,
        Instruction::VxBitOrVy(x, y) => x < 16 && y < 16,
        Instruction::VxBitAndVy(x, y) => x < 16 && y < 16,
        Instruction::VxBitXOrVy(x, y) => x < 16 && y < 16,
        Instruction::VxBitAddVy(x, y) => x < 16 && y < 16,
        Instruction::VxSubVy(x, y) => x < 16 && y < 16,
        Instruction::VxBitShiftRVy(x, _) => x < 16,
        Instruction::VxMinusVy(x, y) => x < 16 && y < 16,
        Instruction::VxBitShiftLVy(x, _) => x < 16,
        Instruction::VxNotVySkip(x, y) => x < 16 && y < 16,
        Instruction::SetIndexRegister(_) => true,
        Instruction::V0Jump(_) => true,
        Instruction::VxRand(x, _) => x < 16,
        Instruction::KeyVxSkip(x) => x < 16,
        Instruction::KeyNotVxSkip(x) => x < 16,
        Instruction::SetTimerVx(x) => x < 16,
        Instruction::GetKeyVx(x) => x < 16,
        Instruction::GetTimerVx(x) => x < 16,
        Instruction::SetSoundTimerVx(x) => x < 16,
        Instruction::AddIVx(x) => x < 16 && s.cpu.v[x as int] + s.cpu.index <= u16::MAX,
        Instruction::SetISprite(x) => x < 16 && s.cpu.v[x as int] * 5 <= 255,
        Instruction::BCDVX(x) => x < 16 && s.cpu.index + 2 < MEM_SIZE,
        Instruction::RegDump(x) => x < 16 && s.cpu.index + x < MEM_SIZE,
        Instruction::RegLoad(x) => x < 16 && s.cpu.index + x < MEM_SIZE,
    }
}

/// Whether a whole tick from state `s` stays inside every machine bound:
/// the instruction word can be fetched, and whatever it decodes to executes
/// within bounds. The random byte of a 0xC instruction never matters here.
pub open spec fn tick_ok(s: SystemView) -> bool {
    &&& sys_wf(s)
    &&& s.cpu.pc + 1 < MEM_SIZE
    &&& exec_ok(s, spec_decode(word_at(s.mem, s.cpu.pc as int), s.cpu.v, 0))
}

/// `exec_ok` does not depend on the random byte folded into a decode: only
/// a 0xC instruction's immediate varies with it, and no bound reads that.
pub proof fn lemma_exec_ok_any_rnd(s: SystemView, w: u16, r1: u8, r2: u8)
    ensures
        exec_ok(s, spec_decode(w, s.cpu.v, r1)) == exec_ok(s, spec_decode(w, s.cpu.v, r2)),
{
}

/// The machine state at construction: reset registers, the font table in
/// low memory and nothing else, a blank screen, flags down, timers zero.
pub open spec fn initial_view() -> SystemView {
    SystemView {
        cpu: CpuView {
            pc: 0x200,
            sp: 0,
            stack: Seq::new(64, |i: int| 0u16),
            index: 0,
            v: Seq::new(16, |i: int| 0u8),
        },
        mem: Seq::new(
            MEM_SIZE as nat,
            |i: int|
                if 0 <= i < 80 {
                    font_table()[i]
                } else {
                    0u8
                },
        ),
        pixels: Seq::new(PIXEL_COUNT as nat, |p: int| 0u8),
        should_draw: false,
        should_play_sound: false,
        delay: 0,
        sound: 0,
    }
}

pub struct System {
    video: Video,
    cpu: Cpu,
    mem: Memory,
    should_draw: bool,
    should_play_sound: bool,
    delay_timer: u8,
    sound_timer: u8,
}

impl View for System {
    type V = SystemView;

    closed spec fn view(&self) -> SystemView {
        SystemView {
            cpu: self.cpu@,
            mem: self.mem@,
            pixels: self.video@,
            should_draw: self.should_draw,
            should_play_sound: self.should_play_sound,
            delay: self.delay_timer,
            sound: self.sound_timer,
        }
    }
}

impl System {
    /// A freshly reset machine.
    pub fn new() -> (sys: System)
        ensures
            sys@ == initial_view(),
            sys_wf(sys@),
    {
        let sys = System {
            video: Video::new(),
            cpu: Cpu::new(),
            mem: Memory::new(),
            should_draw: false,
            should_play_sound: false,
            delay_timer: 0,
            sound_timer: 0,
        };
        proof {
            assert(sys@.mem =~= initial_view().mem);
            assert(sys@.pixels =~= initial_view().pixels);
            assert(sys@ =~~= initial_view());
        }
        sys
    }

    /// Whether the host should present the framebuffer: raised by the
    /// clear-screen and draw instructions, lowered by `draw_done`.
    pub fn should_draw(&self) -> (b: bool)
        ensures
            b == self@.should_draw,
    {
        self.should_draw
    }

    /// Whether the host should drive the audio device this tick.
    pub fn should_play_sound(&self) -> (b: bool)
        ensures
            b == self@.should_play_sound,
    {
        self.should_play_sound
    }

    /// The pixel at column `x`, row `y` of the framebuffer: 0 or 1.
    pub fn pixel(&self, x: usize, y: usize) -> (p: u8)
        requires
            x < SCREEN_WIDTH,
            y < SCREEN_HEIGHT,
            sys_wf(self@),
        ensures
            p == self@.pixels[x + y * SCREEN_WIDTH],
    {
        self.video.pixel(x, y)
    }

    /// The host has presented the framebuffer: lowers the draw flag.
    pub fn draw_done(&mut self)
        ensures
            final(self)@ == (SystemView { should_draw: false, ..old(self)@ }),
    {
        self.should_draw = false;
    }

    /// Copies a program image into memory at `PROGRAM_START`.
    pub fn load_test(&mut self, data: Vec<u8>)
        requires
            sys_wf(old(self)@),
            PROGRAM_START + data@.len() <= MEM_SIZE,
        ensures
            final(self)@ == (SystemView {
                mem: Seq::new(
                    old(self)@.mem.len(),
                    |j: int|
                        if PROGRAM_START <= j < PROGRAM_START + data@.len() {
                            data@[j - PROGRAM_START]
                        } else {
                            old(self)@.mem[j]
                        },
                ),
                ..old(self)@
            }),
            sys_wf(final(self)@),
    {
        let ghost s0 = self@;
        let ghost d = data@;
        self.mem.load(data);
        proof {
            assert(self@.mem =~= Seq::new(
                s0.mem.len(),
                |j: int|
                    if PROGRAM_START <= j < PROGRAM_START + d.len() {
                        d[j - PROGRAM_START]
                    } else {
                        s0.mem[j]
                    },
            ));
            assert(self@ =~~= (SystemView {
                mem: Seq::new(
                    s0.mem.len(),
                    |j: int|
                        if PROGRAM_START <= j < PROGRAM_START + d.len() {
                            d[j - PROGRAM_START]
                        } else {
                            s0.mem[j]
                        },
                ),
                ..s0
            }));
        }
    }

    /// Writes the leading registers from `data`: register `k` takes
    /// `data[k]`.
    pub fn load_test_v(&mut self, data: Vec<u8>)
        requires
            sys_wf(old(self)@),
            data@.len() <= 16,
        ensures
            final(self)@ == (SystemView {
                cpu: CpuView {
                    v: Seq::new(
                        16,
                        |k: int|
                            if k < data@.len() {
                                data@[k]
                            } else {
                                old(self)@.cpu.v[k]
                            },
                    ),
                    ..old(self)@.cpu
                },
                ..old(self)@
            }),
            sys_wf(final(self)@),
    {
        let ghost s0 = self@;
        let ghost d = data@;
        let mut i: usize = 0;
        while i < data.len()
            invariant
                i <= d.len(),
                d.len() <= 16,
                d == data@,
                self@.cpu.v.len() == 16,
                forall|k: int|
                    0 <= k < 16 ==> self@.cpu.v[k] == (if k < i {
                        d[k]
                    } else {
                        s0.cpu.v[k]
                    }),
                (CpuView { v: s0.cpu.v, ..self@.cpu }) == s0.cpu,
                (SystemView { cpu: s0.cpu, ..self@ }) == s0,
            decreases d.len() - i,
        {
            self.cpu.set_v(data[i], i);
            i += 1;
        }
        proof {
            assert(self@.cpu.v =~= Seq::new(
                16,
                |k: int|
                    if k < d.len() {
                        d[k]
                    } else {
                        s0.cpu.v[k]
                    },
            ));
            assert(self@ =~~= (SystemView {
                cpu: CpuView {
                    v: Seq::new(
                        16,
                        |k: int|
                            if k < d.len() {
                                d[k]
                            } else {
                                s0.cpu.v[k]
                            },
                    ),
                    ..s0.cpu
                },
                ..s0
            }));
        }
    }

    /// Whether register `vx` holds `val`.
    pub fn test_eq_v(&self, vx: usize, val: u8) -> (r: bool)
        requires
            vx < 16,
            sys_wf(self@),
        ensures
            r == (self@.cpu.v[vx as int] == val),
    {
        self.cpu.get_v(vx) == val
    }

    /// The control-flow family: unrecognized words, clear-screen, return,
    /// jump and call.
    fn exec_flow(&mut self, instr: Instruction)
        requires
            sys_wf(old(self)@),
            exec_ok(old(self)@, instr),
            instr is Invalid || instr is ClearScreen || instr is Return || instr is Jump
                || instr is Call,
        ensures
            forall|keys: Seq<bool>| final(self)@ == exec_instr(old(self)@, keys, instr),
            sys_wf(final(self)@),
    {
        let ghost s0 = self@;
        match instr {
            Instruction::Invalid(_) => {
                self.cpu.inc_pc();
                proof {
                    assert forall|keys: Seq<bool>| self@ =~~= exec_instr(s0, keys, instr) by {}
                }
            },
            Instruction::ClearScreen => {
                self.cpu.inc_pc();
                self.video.clear();
                self.should_draw = true;
                proof {
                    assert forall|keys: Seq<bool>| self@ =~~= exec_instr(s0, keys, instr) by {}
                }
            },
            Instruction::Return => {
                self.cpu.return_to_sp();
                proof {
                    assert forall|keys: Seq<bool>| self@ =~~= exec_instr(s0, keys, instr) by {}
                }
            },
            Instruction::Jump(addr) => {
                self.cpu.jump(addr);
                proof {
                    assert forall|keys: Seq<bool>| self@ =~~= exec_instr(s0, keys, instr) by {}
                }
            },
            Instruction::Call(addr) => {
                self.cpu.jump_store(addr);
                proof {
                    assert forall|keys: Seq<bool>| self@ =~~= exec_instr(s0, keys, instr) by {}
                }
            },
            _ => {
                proof {
                    assert(false);
                }
            },
        }
    }

    /// The conditional skips over register and immediate comparisons.
    fn exec_skip(&mut self, instr: Instruction)
        requires
            sys_wf(old(self)@),
            exec_ok(old(self)@, instr),
            instr is VxNNSkip || instr is VxNNNotSkip || instr is VxVySkip
                || instr is VxNotVySkip,
        ensures
            forall|keys: Seq<bool>| final(self)@ == exec_instr(old(self)@, keys, instr),
            sys_wf(final(self)@),
    {
        let ghost s0 = self@;
        match instr {
            Instruction::VxNNSkip(x, nn) => {
                self.cpu.inc_pc();
                if self.cpu.get_v(x as usize) == nn as u8 {
                    self.cpu.inc_pc();
                }
                proof {
                    assert forall|keys: Seq<bool>| self@ =~~= exec_instr(s0, keys, instr) by {}
                }
            },
            Instruction::VxNNNotSkip(x, nn) => {
                self.cpu.inc_pc();
                if self.cpu.get_v(x as usize) != nn as u8 {
                    self.cpu.inc_pc();
                }
                proof {
                    assert forall|keys: Seq<bool>| self@ =~~= exec_instr(s0, keys, instr) by {}
                }
            },
            Instruction::VxVySkip(x, y) => {
                self.cpu.inc_pc();
                if self.cpu.get_v(x as usize) == self.cpu.get_v(y as usize) {
                    self.cpu.inc_pc();
                }
                proof {
                    assert forall|keys: Seq<bool>| self@ =~~= exec_instr(s0, keys, instr) by {}
                }
            },
            Instruction::VxNotVySkip(x, y) => {
                self.cpu.inc_pc();
                let val_x = self.cpu.get_v(x as usize);
                let val_y = self.cpu.get_v(y as usize);
                if val_x != val_y {
                    self.cpu.inc_pc()
                }
                proof {
                    assert forall|keys: Seq<bool>| self@ =~~= exec_instr(s0, keys, instr) by {}
                }
            },
            _ => {
                proof {
                    assert(false);
                }
            },
        }
    }

    /// The register loads and the first half of the arithmetic family:
    /// immediate set and add, register copy, the bitwise operations, and the
    /// carrying add.
    fn exec_alu(&mut self, instr: Instruction)
        requires
            sys_wf(old(self)@),
            exec_ok(old(self)@, instr),
            instr is SetRegister || instr is AddRegister || instr is VxSetVy
                || instr is VxBitOrVy || instr is VxBitAndVy || instr is VxBitXOrVy
                || instr is VxBitAddVy,
        ensures
            forall|keys: Seq<bool>| final(self)@ == exec_instr(old(self)@, keys, instr),
            sys_wf(final(self)@),
    {
        let ghost s0 = self@;
        match instr {
            Instruction::SetRegister(x, nn) => {
                self.cpu.inc_pc();
                self.cpu.set_v(nn as u8, x as usize);
                proof {
                    assert forall|keys: Seq<bool>| self@ =~~= exec_instr(s0, keys, instr) by {}
                }
            },
            Instruction::AddRegister(x, nn) => {
                self.cpu.inc_pc();
                let xi = x as usize;
                let new_val = self.cpu.get_v(xi).wrapping_add(nn as u8);
                self.cpu.set_v(new_val, xi);
                proof {
                    assert forall|keys: Seq<bool>| self@ =~~= exec_instr(s0, keys, instr) by {}
                }
            },
            Instruction::VxSetVy(x, y) => {
                self.cpu.inc_pc();
                let y_val = self.cpu.get_v(y as usize);
                self.cpu.set_v(y_val, x as usize);
                proof {
                    assert forall|keys: Seq<bool>| self@ =~~= exec_instr(s0, keys, instr) by {}
                }
            },
            Instruction::VxBitOrVy(x, y) => {
                self.cpu.inc_pc();
                let val_x = self.cpu.get_v(x as usize);
                let val_y = self.cpu.get_v(y as usize);
                self.cpu.set_v(val_x | val_y, x as usize);
                proof {
                    assert forall|keys: Seq<bool>| self@ =~~= exec_instr(s0, keys, instr) by {}
                }
            },
            Instruction::VxBitAndVy(x, y) => {
                self.cpu.inc_pc();
                let val_x = self.cpu.get_v(x as usize);
                let val_y = self.cpu.get_v(y as usize);
                self.cpu.set_v(val_x & val_y, x as usize);
                proof {
                    assert forall|keys: Seq<bool>| self@ =~~= exec_instr(s0, keys, instr) by {}
                }
            },
            Instruction::VxBitXOrVy(x, y) => {
                self.cpu.inc_pc();
                let val_x = self.cpu.get_v(x as usize);
                let val_y = self.cpu.get_v(y as usize);
                self.cpu.set_v(val_x ^ val_y, x as usize);
                proof {
                    assert forall|keys: Seq<bool>| self@ =~~= exec_instr(s0, keys, instr) by {}
                }
            },
            Instruction::VxBitAddVy(x, y) => {
                self.cpu.inc_pc();
                let val_x = self.cpu.get_v(x as usize);
                let val_y = self.cpu.get_v(y as usize);
                if val_y > 0xFF - val_x {
                    self.cpu.set_v(1, 0xF);  // carry
                } else {
                    self.cpu.set_v(0, 0xF);
                }
                let result = val_x.wrapping_add(val_y);
                self.cpu.set_v(result, x as usize);
                proof {
                    assert forall|keys: Seq<bool>| self@ =~~= exec_instr(s0, keys, instr) by {}
                }
            },
            _ => {
                proof {
                    assert(false);
                }
            },
        }
    }

    /// The second half of the arithmetic family: the two borrowing
    /// subtractions, the shifts, the index load, the register-offset jump and
    /// the masked random byte.
    fn exec_alu2(&mut self, instr: Instruction)
        requires
            sys_wf(old(self)@),
            exec_ok(old(self)@, instr),
            instr is VxSubVy || instr is VxBitShiftRVy || instr is VxBitShiftLVy
                || instr is VxMinusVy || instr is SetIndexRegister || instr is V0Jump
                || instr is VxRand,
        ensures
            forall|keys: Seq<bool>| final(self)@ == exec_instr(old(self)@, keys, instr),
            sys_wf(final(self)@),
    {
        let ghost s0 = self@;
        match instr {
            Instruction::VxSubVy(x, y) => {
                self.cpu.inc_pc();
                let val_x = self.cpu.get_v(x as usize);
                let val_y = self.cpu.get_v(y as usize);
                if val_y > val_x {
                    self.cpu.set_v(0, 0xF);  // borrow
                } else {
                    self.cpu.set_v(1, 0xF);
                }
                self.cpu.set_v(val_x.wrapping_sub(val_y), x as usize);
                proof {
                    assert forall|keys: Seq<bool>| self@ =~~= exec_instr(s0, keys, instr) by {}
                }
            },
            Instruction::VxBitShiftRVy(x, _) => {
                self.cpu.inc_pc();
                let val_x = self.cpu.get_v(x as usize);
                self.cpu.set_v(val_x & 0b0001, 0xF);
                self.cpu.set_v(val_x >> 1, x as usize);
                proof {
                    assert forall|keys: Seq<bool>| self@ =~~= exec_instr(s0, keys, instr) by {}
                }
            },
            Instruction::VxBitShiftLVy(x, _) => {
                self.cpu.inc_pc();
                let val_x = self.cpu.get_v(x as usize);
                self.cpu.set_v(val_x & 0b1000, 0xF);
                self.cpu.set_v(val_x << 1, x as usize);
                proof {
                    assert forall|keys: Seq<bool>| self@ =~~= exec_instr(s0, keys, instr) by {}
                }
            },
            Instruction::VxMinusVy(x, y) => {
                self.cpu.inc_pc();
                let val_x = self.cpu.get_v(x as usize);
                let val_y = self.cpu.get_v(y as usize);
                if val_x > val_y {
                    self.cpu.set_v(0, 0xF);  // borrow
                } else {
                    self.cpu.set_v(1, 0xF);
                }
                self.cpu.set_v(val_y.wrapping_sub(val_x), x as usize);
                proof {
                    assert forall|keys: Seq<bool>| self@ =~~= exec_instr(s0, keys, instr) by {}
                }
            },
            Instruction::SetIndexRegister(nnn) => {
                self.cpu.inc_pc();
                self.cpu.set_index(nnn);
                proof {
                    assert forall|keys: Seq<bool>| self@ =~~= exec_instr(s0, keys, instr) by {}
                }
            },
            Instruction::V0Jump(addr) => {
                self.cpu.jump(addr);
                proof {
                    assert forall|keys: Seq<bool>| self@ =~~= exec_instr(s0, keys, instr) by {}
                }
            },
            Instruction::VxRand(x, n) => {
                self.cpu.inc_pc();
                self.cpu.set_v(n as u8, x as usize);
                proof {
                    assert forall|keys: Seq<bool>| self@ =~~= exec_instr(s0, keys, instr) by {}
                }
            },
            _ => {
                proof {
                    assert(false);
                }
            },
        }
    }

    /// The keyboard family: the two key skips and the non-blocking key wait.
    fn exec_keys(&mut self, instr: Instruction, keys_pressed: &[bool; 16])
        requires
            sys_wf(old(self)@),
            exec_ok(old(self)@, instr),
            instr is KeyVxSkip || instr is KeyNotVxSkip || instr is GetKeyVx,
        ensures
            final(self)@ == exec_instr(old(self)@, keys_pressed@, instr),
            sys_wf(final(self)@),
    {
        let ghost s0 = self@;
        match instr {
            Instruction::KeyVxSkip(x) => {
                self.cpu.inc_pc();
                let vx_key = self.cpu.get_v(x as usize);
                if vx_key <= 0xF {
                    if keys_pressed[vx_key as usize] {
                        self.cpu.inc_pc();
                    }
                }
                proof {
                    assert(self@ =~~= exec_instr(s0, keys_pressed@, instr));
                }
            },
            Instruction::KeyNotVxSkip(x) => {
                self.cpu.inc_pc();
                let vx_key = self.cpu.get_v(x as usize);
                if vx_key <= 0xF {
                    if !keys_pressed[vx_key as usize] {
                        self.cpu.inc_pc();
                    }
                }
                proof {
                    assert(self@ =~~= exec_instr(s0, keys_pressed@, instr));
                }
            },
            Instruction::GetKeyVx(x) => {
                let mut press_detected = false;
                let mut i: usize = 0;
                while i < 16
                    invariant
                        i <= 16,
                        x < 16,
                        self@.cpu.v.len() == 16,
                        s0.cpu.v.len() == 16,
                        press_detected == any_pressed(keys_pressed@, i as int),
                        press_detected ==> self@.cpu.v == s0.cpu.v.update(
                            x as int,
                            last_pressed(keys_pressed@, i as int) as u8,
                        ),
                        !press_detected ==> self@.cpu.v == s0.cpu.v,
                        0 <= last_pressed(keys_pressed@, i as int) < 16,
                        (CpuView { v: s0.cpu.v, ..self@.cpu }) == s0.cpu,
                        (SystemView { cpu: s0.cpu, ..self@ }) == s0,
                    decreases 16 - i,
                {
                    if keys_pressed[i] {
                        press_detected = true;
                        self.cpu.set_v(i as u8, x as usize);
                        proof {
                            assert(self@.cpu.v =~= s0.cpu.v.update(x as int, i as u8));
                        }
                    }
                    i += 1;
                }
                if press_detected {
                    self.cpu.inc_pc();
                }
                proof {
                    assert(self@ =~~= exec_instr(s0, keys_pressed@, instr));
                }
            },
            _ => {
                proof {
                    assert(false);
                }
            },
        }
    }

    /// The timer transfers and the index arithmetic.
    fn exec_sys(&mut self, instr: Instruction)
        requires
            sys_wf(old(self)@),
            exec_ok(old(self)@, instr),
            instr is SetTimerVx || instr is GetTimerVx || instr is SetSoundTimerVx
                || instr is AddIVx || instr is SetISprite,
        ensures
            forall|keys: Seq<bool>| final(self)@ == exec_instr(old(self)@, keys, instr),
            sys_wf(final(self)@),
    {
        let ghost s0 = self@;
        match instr {
            Instruction::SetTimerVx(x) => {
                self.cpu.set_v(self.delay_timer, x as usize);
                self.cpu.inc_pc();
                proof {
                    assert forall|keys: Seq<bool>| self@ =~~= exec_instr(s0, keys, instr) by {}
                }
            },
            Instruction::GetTimerVx(x) => {
                self.delay_timer = self.cpu.get_v(x as usize);
                self.cpu.inc_pc();
                proof {
                    assert forall|keys: Seq<bool>| self@ =~~= exec_instr(s0, keys, instr) by {}
                }
            },
            Instruction::SetSoundTimerVx(x) => {
                self.sound_timer = self.cpu.get_v(x as usize);
                self.cpu.inc_pc();
                proof {
                    assert forall|keys: Seq<bool>| self@ =~~= exec_instr(s0, keys, instr) by {}
                }
            },
            Instruction::AddIVx(x) => {
                let vx = self.cpu.get_v(x as usize) as u16;
                if vx + self.cpu.index() > 0xFFF {
                    self.cpu.set_v(1, 0xF)
                } else {
                    self.cpu.set_v(0, 0xF)
                }
                let new_value = vx + self.cpu.index();
                self.cpu.set_index(new_value);
                self.cpu.inc_pc();
                proof {
                    assert forall|keys: Seq<bool>| self@ =~~= exec_instr(s0, keys, instr) by {}
                }
            },
            Instruction::SetISprite(x) => {
                let addr = (self.cpu.get_v(x as usize) * 0x5) as u16;
                self.cpu.set_index(addr);
                self.cpu.inc_pc();
                proof {
                    assert forall|keys: Seq<bool>| self@ =~~= exec_instr(s0, keys, instr) by {}
                }
            },
            _ => {
                proof {
                    assert(false);
                }
            },
        }
    }

    /// The memory family: the decimal store and the register dump and load
    /// through the index register.
    fn exec_mem(&mut self, instr: Instruction)
        requires
            sys_wf(old(self)@),
            exec_ok(old(self)@, instr),
            instr is BCDVX || instr is RegDump || instr is RegLoad,
        ensures
            forall|keys: Seq<bool>| final(self)@ == exec_instr(old(self)@, keys, instr),
            sys_wf(final(self)@),
    {
        let ghost s0 = self@;
        match instr {
            Instruction::BCDVX(x) => {
                let i = self.cpu.index() as usize;
                let vx = self.cpu.get_v(x as usize);
                self.mem.set(i, vx / 100);
                self.mem.set(i + 1, (vx / 10) % 10);
                self.mem.set(i + 2, (vx % 100) % 10);
                self.cpu.inc_pc();
                proof {
                    assert forall|keys: Seq<bool>| self@ =~~= exec_instr(s0, keys, instr) by {}
                }
            },
            Instruction::RegDump(x) => {
                let mut k: u16 = 0;
                while k < x + 1
                    invariant
                        x < 16,
                        k <= x + 1,
                        s0.cpu.index + x < MEM_SIZE,
                        self@.mem.len() == MEM_SIZE,
                        s0.cpu.v.len() == 16,
                        forall|j: int|
                            0 <= j < MEM_SIZE ==> self@.mem[j] == (
                            if s0.cpu.index <= j < s0.cpu.index + k {
                                s0.cpu.v[j - s0.cpu.index]
                            } else {
                                s0.mem[j]
                            }),
                        (SystemView { mem: s0.mem, ..self@ }) == s0,
                    decreases x + 1 - k,
                {
                    let i = self.cpu.index() + k;
                    let val = self.cpu.get_v(k as usize);
                    self.mem.set(i as usize, val);
                    k += 1;
                }
                let idx = self.cpu.index();
                self.cpu.set_index(x + idx + 1);
                self.cpu.inc_pc();
                proof {
                    assert forall|keys: Seq<bool>| self@ =~~= exec_instr(s0, keys, instr) by {}
                }
            },
            Instruction::RegLoad(x) => {
                let mut k: u16 = 0;
                while k < x + 1
                    invariant
                        x < 16,
                        k <= x + 1,
                        s0.cpu.index + x < MEM_SIZE,
                        s0.mem.len() == MEM_SIZE,
                        self@.cpu.v.len() == 16,
                        forall|r: int|
                            0 <= r < 16 ==> self@.cpu.v[r] == (if 0 <= r < k {
                                s0.mem[s0.cpu.index + r]
                            } else {
                                s0.cpu.v[r]
                            }),
                        (CpuView { v: s0.cpu.v, ..self@.cpu }) == s0.cpu,
                        (SystemView { cpu: s0.cpu, ..self@ }) == s0,
                    decreases x + 1 - k,
                {
                    let i = self.cpu.index() + k;
                    let b = self.mem.get_byte(i);
                    self.cpu.set_v(b, k as usize);
                    k += 1;
                }
                let idx = self.cpu.index();
                self.cpu.set_index(x + idx + 1);
                self.cpu.inc_pc();
                proof {
                    assert forall|keys: Seq<bool>| self@ =~~= exec_instr(s0, keys, instr) by {}
                }
            },
            _ => {
                proof {
                    assert(false);
                }
            },
        }
    }

    /// The sprite blit.
    fn exec_draw(&mut self, instr: Instruction)
        requires
            sys_wf(old(self)@),
            exec_ok(old(self)@, instr),
            instr is Draw,
        ensures
            forall|keys: Seq<bool>| final(self)@ == exec_instr(old(self)@, keys, instr),
            sys_wf(final(self)@),
    {
        let ghost s0 = self@;
        match instr {
            Instruction::Draw(x, y, n) => {
                self.cpu.inc_pc();
                self.should_draw = true;
                match self.video.draw_sprite(x, y, n, self.cpu.index(), &self.mem) {
                    true => self.cpu.set_v(1, 0xF),
                    false => self.cpu.set_v(0, 0xF),
                }
                proof {
                    assert forall|keys: Seq<bool>| self@ =~~= exec_instr(s0, keys, instr) by {}
                }
            },
            _ => {
                proof {
                    assert(false);
                }
            },
        }
    }

    /// Executes one decoded instruction and decrements the timers: the
    /// deterministic remainder of a tick once the instruction is in hand.
    /// The new state is exactly `step` at the old one.
    pub fn execute(&mut self, instr: Instruction, keys_pressed: &[bool; 16])
        requires
            sys_wf(old(self)@),
            exec_ok(old(self)@, instr),
        ensures
            final(self)@ == step(old(self)@, keys_pressed@, instr),
            sys_wf(final(self)@),
    {
        let ghost s0 = self@;
        match instr {
            Instruction::Invalid(_)
            | Instruction::ClearScreen
            | Instruction::Return
            | Instruction::Jump(_)
            | Instruction::Call(_) => self.exec_flow(instr),
            Instruction::Draw(_, _, _) => self.exec_draw(instr),
            Instruction::VxNNSkip(_, _)
            | Instruction::VxNNNotSkip(_, _)
            | Instruction::VxVySkip(_, _)
            | Instruction::VxNotVySkip(_, _) => self.exec_skip(instr),
            Instruction::SetRegister(_, _)
            | Instruction::AddRegister(_, _)
            | Instruction::VxSetVy(_, _)
            | Instruction::VxBitOrVy(_, _)
            | Instruction::VxBitAndVy(_, _)
            | Instruction::VxBitXOrVy(_, _)
            | Instruction::VxBitAddVy(_, _) => self.exec_alu(instr),
            Instruction::VxSubVy(_, _)
            | Instruction::VxBitShiftRVy(_, _)
            | Instruction::VxBitShiftLVy(_, _)
            | Instruction::VxMinusVy(_, _)
            | Instruction::SetIndexRegister(_)
            | Instruction::V0Jump(_)
            | Instruction::VxRand(_, _) => self.exec_alu2(instr),
            Instruction::KeyVxSkip(_)
            | Instruction::KeyNotVxSkip(_)
            | Instruction::GetKeyVx(_) => self.exec_keys(instr, keys_pressed),
            Instruction::SetTimerVx(_)
            | Instruction::GetTimerVx(_)
            | Instruction::SetSoundTimerVx(_)
            | Instruction::AddIVx(_)
            | Instruction::SetISprite(_) => self.exec_sys(instr),
            Instruction::BCDVX(_)
            | Instruction::RegDump(_)
            | Instruction::RegLoad(_) => self.exec_mem(instr),
        }
        let ghost s1 = self@;
        proof {
            assert(s1 == exec_instr(s0, keys_pressed@, instr));
        }
        if self.delay_timer > 0 {
            self.delay_timer -= 1;
        }
        self.should_play_sound = self.sound_timer == 1;
        if self.sound_timer > 0 {
            self.sound_timer -= 1;
        }
        proof {
            assert(self@ =~~= tick_timers(s1));
        }
    }

    /// One tick: fetches and decodes the instruction word at the program
    /// counter, executes it, and decrements the timers. A 0xC instruction
    /// folds in one fresh random byte, so the outcome is `step` at the
    /// fetched word decoded with some byte; for every other word the byte
    /// does not matter.
    pub fn tick(&mut self, keys_pressed: &[bool; 16])
        requires
            tick_ok(old(self)@),
        ensures
            exists|rnd: u8|
                final(self)@ == step(
                    old(self)@,
                    keys_pressed@,
                    spec_decode(
                        word_at(old(self)@.mem, old(self)@.cpu.pc as int),
                        old(self)@.cpu.v,
                        rnd,
                    ),
                ),
            word_at(old(self)@.mem, old(self)@.cpu.pc as int) & 0xF000 != 0xC000
                ==> final(self)@ == step(
                old(self)@,
                keys_pressed@,
                spec_decode(
                    word_at(old(self)@.mem, old(self)@.cpu.pc as int),
                    old(self)@.cpu.v,
                    0,
                ),
            ),
            sys_wf(final(self)@),
    {
        let ghost s0 = self@;
        let ghost w = word_at(s0.mem, s0.cpu.pc as int);
        let instr = self.cpu.fetch_decode(&self.mem);
        proof {
            let rnd = choose|rnd: u8| instr == spec_decode(w, s0.cpu.v, rnd);
            lemma_exec_ok_any_rnd(s0, w, 0, rnd);
            assert(exec_ok(s0, instr));
        }
        self.execute(instr, keys_pressed);
        proof {
            let rnd = choose|rnd: u8| instr == spec_decode(w, s0.cpu.v, rnd);
            assert(self@ == step(s0, keys_pressed@, spec_decode(w, s0.cpu.v, rnd)));
            if w & 0xF000 != 0xC000 {
                lemma_decode_rnd_independent(w, s0.cpu.v, rnd, 0);
            }
        }
    }

    /// Whether the next tick stays inside every machine bound, exactly
    /// `tick_ok`: lets a caller test before ticking instead of proving.
    pub fn tick_ready(&self) -> (b: bool)
        requires
            sys_wf(self@),
        ensures
            b == tick_ok(self@),
    {
        let pc = self.cpu.pc();
        if !(pc as usize + 1 < MEM_SIZE) {
            return false;
        }
        let w = self.mem.get_instruction(pc);
        let instr = self.cpu.decode_word(w, 0);
        self.exec_ok_check(instr)
    }

    /// Whether `exec_ok` holds of the current state and `instr`.
    fn exec_ok_check(&self, instr: Instruction) -> (b: bool)
        requires
            sys_wf(self@),
        ensures
            b == exec_ok(self@, instr),
    {
        if !(self.cpu.pc() <= u16::MAX - 4) {
            return false;
        }
        match instr {
            Instruction::Invalid(_) => true,
            Instruction::ClearScreen => true,
            Instruction::Return => {
                let sp = self.cpu.sp();
                1 <= sp && sp <= 64 && self.cpu.stack_at(sp - 1) <= u16::MAX - 2
            },
            Instruction::Jump(_) => true,
            Instruction::Call(_) => self.cpu.sp() < 64,
            Instruction::Draw(_, _, n) => {
                n <= 15 && self.cpu.index() as usize + n as usize <= MEM_SIZE
            },
            Instruction::VxNNSkip(x, _) => x < 16,
            Instruction::VxNNNotSkip(x, _) => x < 16,
            Instruction::VxVySkip(x, y) => x < 16 && y < 16,
            Instruction::SetRegister(x, _) => x < 16,
            Instruction::AddRegister(x, _) => x < 16,
            Instruction::VxSetVy(x, y) => x < 16 && y < 16,
            Instruction::VxBitOrVy(x, y) => x < 16 && y < 16,
            Instruction::VxBitAndVy(x, y) => x < 16 && y < 16,
            Instruction::VxBitXOrVy(x, y) => x < 16 && y < 16,
            Instruction::VxBitAddVy(x, y) => x < 16 && y < 16,
            Instruction::VxSubVy(x, y) => x < 16 && y < 16,
            Instruction::VxBitShiftRVy(x, _) => x < 16,
            Instruction::VxMinusVy(x, y) => x < 16 && y < 16,
            Instruction::VxBitShiftLVy(x, _) => x < 16,
            Instruction::VxNotVySkip(x, y) => x < 16 && y < 16,
            Instruction::SetIndexRegister(_) => true,
            Instruction::V0Jump(_) => true,
            Instruction::VxRand(x, _) => x < 16,
            Instruction::KeyVxSkip(x) => x < 16,
            Instruction::KeyNotVxSkip(x) => x < 16,
            Instruction::SetTimerVx(x) => x < 16,
            Instruction::GetKeyVx(x) => x < 16,
            Instruction::GetTimerVx(x) => x < 16,
            Instruction::SetSoundTimerVx(x) => x < 16,
            Instruction::AddIVx(x) => {
                x < 16 && self.cpu.get_v(x as usize) as u32 + self.cpu.index() as u32
                    <= u16::MAX as u32
            },
            Instruction::SetISprite(x) => x < 16 && self.cpu.get_v(x as usize) <= 51,
            Instruction::BCDVX(x) => x < 16 && (self.cpu.index() as usize) + 2 < MEM_SIZE,
            Instruction::RegDump(x) => {
                x < 16 && (self.cpu.index() as usize) + (x as usize) < MEM_SIZE
            },
            Instruction::RegLoad(x) => {
                x < 16 && (self.cpu.index() as usize) + (x as usize) < MEM_SIZE
            },
        }
    }
}

} // verus!
