use vstd::prelude::*;

use crate::audio::{Audio, AudioView};
use crate::display::{blank, draw_collision, draw_pixels, Display, DisplayView};
use crate::errors::VmError;
use crate::keyboard::{first_down_from, Keyboard, NUM_KEYS};
use crate::memory::{MEM_SIZE, ROM_OFFSET, load_character_set, load_rom, new_memory};
use crate::timer::{Timer, TimerView};

verus! {

/// Number of general-purpose 8-bit registers.
pub const NUM_REGS: usize = 16;

/// Index of the register reserved as carry/flag output of arithmetic and
/// drawing instructions.
pub const FLAG_REG: usize = 15;

/// The interpreter core's owned state: 4096 bytes of memory, sixteen 8-bit
/// general registers, the 16-bit address register, the program counter and
/// the growable stack of return addresses.
pub struct Machine {
    memory: Vec<u8>,
    v: Vec<u8>,
    i: u16,
    pc: u16,
    stack: Vec<u16>,
}

/// Mathematical image of a `Machine`.
pub struct CoreView {
    pub mem: Seq<u8>,
    pub v: Seq<u8>,
    pub i: u16,
    pub pc: u16,
    pub stack: Seq<u16>,
}

impl View for Machine {
    type V = CoreView;

    closed spec fn view(&self) -> CoreView {
        CoreView {
            mem: self.memory@,
            v: self.v@,
            i: self.i,
            pc: self.pc,
            stack: self.stack@,
        }
    }
}

impl CoreView {
    pub open spec fn wf(self) -> bool {
        &&& self.mem.len() == MEM_SIZE
        &&& self.v.len() == NUM_REGS
    }
}

/// One decoded instruction of the 8-bit fantasy console instruction set.
/// Register operands are nibble values (below 16), addresses are 12-bit
/// values, immediates are bytes.
#[derive(Clone, Copy, Debug, PartialEq, Eq, Structural)]
pub enum Instr {
    /// 0x00E0: clear the display.
    ClearScreen,
    /// 0x00EE: pop the stack into the program counter.
    Ret,
    /// 0x2NNN, and 0x0NNN for other NNN (a legacy machine-code routine,
    /// treated as a subroutine call): push the return address, jump to NNN.
    Call(u16),
    /// 0x1NNN: jump to NNN.
    Jump(u16),
    /// 0x3XNN: skip the next instruction if Vx == NN.
    SkipEqImm(u8, u8),
    /// 0x4XNN: skip the next instruction if Vx != NN.
    SkipNeImm(u8, u8),
    /// 0x5XY0: skip the next instruction if Vx == Vy.
    SkipEqReg(u8, u8),
    /// 0x6XNN: Vx = NN.
    SetImm(u8, u8),
    /// 0x7XNN: Vx = Vx + NN, wrapping, no flag change.
    AddImm(u8, u8),
    /// 0x8XYk for k in 0..=7 or k == 0xE: the register-register family
    /// (copy, OR, AND, XOR, add, subtract, shifts).
    Alu(u8, u8, u8),
    /// 0x9XY0: skip the next instruction if Vx != Vy.
    SkipNeReg(u8, u8),
    /// 0xANNN: address register = NNN.
    SetIndex(u16),
    /// 0xBNNN: jump to V0 + NNN.
    JumpV0(u16),
    /// 0xCXNN: Vx = random byte AND NN.
    Rand(u8, u8),
    /// 0xDXYN: draw the N-byte sprite at the address register to (Vx, Vy),
    /// flag register = collision result.
    Draw(u8, u8, u8),
    /// 0xEX9E: skip the next instruction if key Vx is down.
    SkipKeyDown(u8),
    /// 0xEXA1: skip the next instruction if key Vx is up.
    SkipKeyUp(u8),
    /// 0xFX07: Vx = delay timer value.
    GetDelay(u8),
    /// 0xFX0A: wait for a key: re-execute until some key is down, then
    /// Vx = that key's index.
    WaitKey(u8),
    /// 0xFX15: delay timer = Vx.
    SetDelay(u8),
    /// 0xFX18: play a tone for Vx 60Hz frames.
    Sound(u8),
    /// 0xFX1E: address register = address register + Vx, wrapping.
    AddIndex(u8),
    /// 0xFX29: address register = Vx times the glyph height.
    GlyphIndex(u8),
    /// 0xFX33: store Vx's decimal digits at the address register.
    StoreBcd(u8),
    /// 0xFX55: store V0..=Vx into memory at the address register.
    StoreRegs(u8),
    /// 0xFX65: load V0..=Vx from memory at the address register.
    LoadRegs(u8),
}

/// Nibble `pos` of an instruction word, counting the topmost nibble as
/// position 0.
pub open spec fn spec_reg(opcode: u16, pos: int) -> int {
    if pos == 0 {
        opcode as int / 0x1000
    } else if pos == 1 {
        (opcode as int / 0x100) % 16
    } else if pos == 2 {
        (opcode as int / 0x10) % 16
    } else {
        opcode as int % 16
    }
}

/// The register index held in nibble `pos` of an instruction word.
pub fn get_reg(opcode: u16, pos: u8) -> (r: usize)
    requires
        pos <= 3,
    ensures
        r == spec_reg(opcode, pos as int),
        r < 16,
{
    if pos == 0 {
        (opcode / 0x1000) as usize
    } else if pos == 1 {
        ((opcode / 0x100) % 16) as usize
    } else if pos == 2 {
        ((opcode / 0x10) % 16) as usize
    } else {
        (opcode % 16) as usize
    }
}

/// The 4-bit count field (the low nibble) of an instruction word.
pub fn get_n(opcode: u16) -> (r: u8)
    ensures
        r == opcode % 16,
        r < 16,
{
    (opcode % 16) as u8
}

/// The 8-bit immediate (the low byte) of an instruction word.
pub fn get_nn(opcode: u16) -> (r: u8)
    ensures
        r == opcode % 0x100,
{
    (opcode % 0x100) as u8
}

/// The 12-bit address field (the low 12 bits) of an instruction word.
pub fn get_nnn(opcode: u16) -> (r: u16)
    ensures
        r == opcode % 0x1000,
        r < 0x1000,
{
    opcode % 0x1000
}

/// The instruction an opcode word decodes to, or nothing for an unmapped
/// word. The top nibble selects a family; most families further decode
/// register indices, an immediate, an address, or a count.
pub open spec fn spec_decode(op: u16) -> Option<Instr> {
    let fam = spec_reg(op, 0);
    let x = spec_reg(op, 1) as u8;
    let y = spec_reg(op, 2) as u8;
    let n = (op % 16) as u8;
    let nn = (op % 0x100) as u8;
    let nnn = (op % 0x1000) as u16;
    if fam == 0x0 {
        if op == 0x00E0 {
            Some(Instr::ClearScreen)
        } else if op == 0x00EE {
            Some(Instr::Ret)
        } else {
            Some(Instr::Call(nnn))
        }
    } else if fam == 0x1 {
        Some(Instr::Jump(nnn))
    } else if fam == 0x2 {
        Some(Instr::Call(nnn))
    } else if fam == 0x3 {
        Some(Instr::SkipEqImm(x, nn))
    } else if fam == 0x4 {
        Some(Instr::SkipNeImm(x, nn))
    } else if fam == 0x5 {
        if n == 0 {
            Some(Instr::SkipEqReg(x, y))
        } else {
            None
        }
    } else if fam == 0x6 {
        Some(Instr::SetImm(x, nn))
    } else if fam == 0x7 {
        Some(Instr::AddImm(x, nn))
    } else if fam == 0x8 {
        if n <= 7 || n == 0xE {
            Some(Instr::Alu(x, y, n))
        } else {
            None
        }
    } else if fam == 0x9 {
        if n == 0 {
            Some(Instr::SkipNeReg(x, y))
        } else {
            None
        }
    } else if fam == 0xA {
        Some(Instr::SetIndex(nnn))
    } else if fam == 0xB {
        Some(Instr::JumpV0(nnn))
    } else if fam == 0xC {
        Some(Instr::Rand(x, nn))
    } else if fam == 0xD {
        Some(Instr::Draw(x, y, n))
    } else if fam == 0xE {
        if nn == 0x9E {
            Some(Instr::SkipKeyDown(x))
        } else if nn == 0xA1 {
            Some(Instr::SkipKeyUp(x))
        } else {
            None
        }
    } else {
        if nn == 0x07 {
            Some(Instr::GetDelay(x))
        } else if nn == 0x0A {
            Some(Instr::WaitKey(x))
        } else if nn == 0x15 {
            Some(Instr::SetDelay(x))
        } else if nn == 0x18 {
            Some(Instr::Sound(x))
        } else if nn == 0x1E {
            Some(Instr::AddIndex(x))
        } else if nn == 0x29 {
            Some(Instr::GlyphIndex(x))
        } else if nn == 0x33 {
            Some(Instr::StoreBcd(x))
        } else if nn == 0x55 {
            Some(Instr::StoreRegs(x))
        } else if nn == 0x65 {
            Some(Instr::LoadRegs(x))
        } else {
            None
        }
    }
}

/// Decode an opcode word, or report an unmapped one.
pub fn decode(op: u16) -> (r: Option<Instr>)
    ensures
        r == spec_decode(op),
{
    let fam = get_reg(op, 0);
    let x = get_reg(op, 1) as u8;
    let y = get_reg(op, 2) as u8;
    let n = get_n(op);
    let nn = get_nn(op);
    let nnn = get_nnn(op);
    if fam == 0x0 {
        if op == 0x00E0 {
            Some(Instr::ClearScreen)
        } else if op == 0x00EE {
            Some(Instr::Ret)
        } else {
            Some(Instr::Call(nnn))
        }
    } else if fam == 0x1 {
        Some(Instr::Jump(nnn))
    } else if fam == 0x2 {
        Some(Instr::Call(nnn))
    } else if fam == 0x3 {
        Some(Instr::SkipEqImm(x, nn))
    } else if fam == 0x4 {
        Some(Instr::SkipNeImm(x, nn))
    } else if fam == 0x5 {
        if n == 0 {
            Some(Instr::SkipEqReg(x, y))
        } else {
            None
        }
    } else if fam == 0x6 {
        Some(Instr::SetImm(x, nn))
    } else if fam == 0x7 {
        Some(Instr::AddImm(x, nn))
    } else if fam == 0x8 {
        if n <= 7 || n == 0xE {
            Some(Instr::Alu(x, y, n))
        } else {
            None
        }
    } else if fam == 0x9 {
        if n == 0 {
            Some(Instr::SkipNeReg(x, y))
        } else {
            None
        }
    } else if fam == 0xA {
        Some(Instr::SetIndex(nnn))
    } else if fam == 0xB {
        Some(Instr::JumpV0(nnn))
    } else if fam == 0xC {
        Some(Instr::Rand(x, nn))
    } else if fam == 0xD {
        Some(Instr::Draw(x, y, n))
    } else if fam == 0xE {
        if nn == 0x9E {
            Some(Instr::SkipKeyDown(x))
        } else if nn == 0xA1 {
            Some(Instr::SkipKeyUp(x))
        } else {
            None
        }
    } else {
        if nn == 0x07 {
            Some(Instr::GetDelay(x))
        } else if nn == 0x0A {
            Some(Instr::WaitKey(x))
        } else if nn == 0x15 {
            Some(Instr::SetDelay(x))
        } else if nn == 0x18 {
            Some(Instr::Sound(x))
        } else if nn == 0x1E {
            Some(Instr::AddIndex(x))
        } else if nn == 0x29 {
            Some(Instr::GlyphIndex(x))
        } else if nn == 0x33 {
            Some(Instr::StoreBcd(x))
        } else if nn == 0x55 {
            Some(Instr::StoreRegs(x))
        } else if nn == 0x65 {
            Some(Instr::LoadRegs(x))
        } else {
            None
        }
    }
}

/// Everything one executed instruction changes: the core's own state, the
/// framebuffer (and whether the instruction touched it), and the commands
/// handed to the delay timer and the audio trigger.
pub struct StepEffect {
    pub core: CoreView,
    pub pixels: Seq<bool>,
    pub disp_touched: bool,
    pub set_delay: Option<u8>,
    pub play: Option<u8>,
}

/// An effect that changes only the core: framebuffer untouched, no timer or
/// audio command.
pub open spec fn core_effect(core: CoreView, pixels: Seq<bool>) -> StepEffect {
    StepEffect { core, pixels, disp_touched: false, set_delay: None, play: None }
}

/// The big-endian 16-bit instruction word at the program counter.
pub open spec fn spec_fetch(s: CoreView) -> u16 {
    (s.mem[s.pc as int] * 0x100 + s.mem[s.pc as int + 1]) as u16
}

/// The program counter after a conditional skip: past the next instruction
/// when the condition holds, else to the next instruction.
pub open spec fn skip_pc(pc: u16, cond: bool) -> u16 {
    if cond {
        (pc + 4) as u16
    } else {
        (pc + 2) as u16
    }
}

/// 8-bit wrapping addition.
pub open spec fn wrap_add_u8(a: u8, b: u8) -> u8 {
    ((a + b) % 0x100) as u8
}

/// 8-bit wrapping subtraction.
pub open spec fn wrap_sub_u8(a: u8, b: u8) -> u8 {
    ((a - b + 0x100) % 0x100) as u8
}

/// The register file after one register-register instruction 0x8XYk.
/// The flag register is written after the result for add, subtract and
/// reverse subtract, and before the shift for the two shifts, so an
/// instruction that names the flag register as X keeps the exact write
/// order of the dispatch loop.
pub open spec fn spec_alu(v: Seq<u8>, x: int, y: int, k: u8) -> Seq<u8> {
    if k == 0 {
        v.update(x, v[y])
    } else if k == 1 {
        v.update(x, v[x] | v[y])
    } else if k == 2 {
        v.update(x, v[x] & v[y])
    } else if k == 3 {
        v.update(x, v[x] ^ v[y])
    } else if k == 4 {
        let sum = v[x] + v[y];
        v.update(x, (sum % 0x100) as u8).update(
            FLAG_REG as int,
            if sum > 0xFF {
                1u8
            } else {
                0u8
            },
        )
    } else if k == 5 {
        let flag: u8 = if v[y] > v[x] {
            0
        } else {
            1
        };
        v.update(x, wrap_sub_u8(v[x], v[y])).update(FLAG_REG as int, flag)
    } else if k == 6 {
        let v1 = v.update(FLAG_REG as int, (v[x] % 2) as u8);
        v1.update(x, v1[x] / 2)
    } else if k == 7 {
        let flag: u8 = if v[x] > v[y] {
            0
        } else {
            1
        };
        v.update(x, wrap_sub_u8(v[y], v[x])).update(FLAG_REG as int, flag)
    } else {
        let v1 = v.update(
            FLAG_REG as int,
            if v[x] >= 0x80 {
                0x80u8
            } else {
                0u8
            },
        );
        v1.update(x, ((v1[x] * 2) % 0x100) as u8)
    }
}

/// Memory after registers V0..=Vx are stored at address `i`.
pub open spec fn spec_store_regs(mem: Seq<u8>, v: Seq<u8>, i: int, x: int) -> Seq<u8> {
    Seq::new(mem.len(), |k: int| if i <= k <= i + x { v[k - i] } else { mem[k] })
}

/// Registers after V0..=Vx are loaded from memory at address `i`.
pub open spec fn spec_load_regs(v: Seq<u8>, mem: Seq<u8>, i: int, x: int) -> Seq<u8> {
    Seq::new(v.len(), |j: int| if j <= x { mem[i + j] } else { v[j] })
}

/// The sprite of `n` rows that starts at address `i`.
pub open spec fn spec_sprite(mem: Seq<u8>, i: int, n: int) -> Seq<u8> {
    Seq::new(n as nat, |j: int| mem[i + j])
}

/// The effect of one decoded instruction on the machine state `s`, the
/// framebuffer `pixels`, and the attached devices; `keys` is the input
/// state, `delay` the delay timer's visible value and `rnd` the random byte
/// drawn for this cycle. Instructions that address memory out of the
/// 4096-byte range, return on an empty stack or test a key past the 16 keys
/// are fatal.
pub open spec fn spec_exec(
    s: CoreView,
    pixels: Seq<bool>,
    keys: Seq<bool>,
    delay: u8,
    rnd: u8,
    instr: Instr,
) -> Result<StepEffect, VmError> {
    let pc2 = (s.pc + 2) as u16;
    match instr {
        Instr::ClearScreen => Ok(
            StepEffect {
                core: CoreView { pc: pc2, ..s },
                pixels: blank(),
                disp_touched: true,
                set_delay: None,
                play: None,
            },
        ),
        Instr::Ret => {
            if s.stack.len() == 0 {
                Err(VmError::StackUnderflow)
            } else {
                Ok(
                    core_effect(
                        CoreView { pc: s.stack.last(), stack: s.stack.drop_last(), ..s },
                        pixels,
                    ),
                )
            }
        },
        Instr::Call(a) => Ok(
            core_effect(CoreView { pc: a, stack: s.stack.push(pc2), ..s }, pixels),
        ),
        Instr::Jump(a) => Ok(core_effect(CoreView { pc: a, ..s }, pixels)),
        Instr::SkipEqImm(x, nn) => Ok(
            core_effect(CoreView { pc: skip_pc(s.pc, s.v[x as int] == nn), ..s }, pixels),
        ),
        Instr::SkipNeImm(x, nn) => Ok(
            core_effect(CoreView { pc: skip_pc(s.pc, s.v[x as int] != nn), ..s }, pixels),
        ),
        Instr::SkipEqReg(x, y) => Ok(
            core_effect(
                CoreView { pc: skip_pc(s.pc, s.v[x as int] == s.v[y as int]), ..s },
                pixels,
            ),
        ),
        Instr::SetImm(x, nn) => Ok(
            core_effect(CoreView { v: s.v.update(x as int, nn), pc: pc2, ..s }, pixels),
        ),
        Instr::AddImm(x, nn) => Ok(
            core_effect(
                CoreView { v: s.v.update(x as int, wrap_add_u8(s.v[x as int], nn)), pc: pc2, ..s },
                pixels,
            ),
        ),
        Instr::Alu(x, y, k) => Ok(
            core_effect(
                CoreView { v: spec_alu(s.v, x as int, y as int, k), pc: pc2, ..s },
                pixels,
            ),
        ),
        Instr::SkipNeReg(x, y) => Ok(
            core_effect(
                CoreView { pc: skip_pc(s.pc, s.v[x as int] != s.v[y as int]), ..s },
                pixels,
            ),
        ),
        Instr::SetIndex(a) => Ok(core_effect(CoreView { i: a, pc: pc2, ..s }, pixels)),
        Instr::JumpV0(a) => Ok(
            core_effect(CoreView { pc: (s.v[0] + a) as u16, ..s }, pixels),
        ),
        Instr::Rand(x, nn) => Ok(
            core_effect(CoreView { v: s.v.update(x as int, rnd & nn), pc: pc2, ..s }, pixels),
        ),
        Instr::Draw(x, y, n) => {
            if n > 0 && s.i + n > MEM_SIZE {
                Err(VmError::MemoryOutOfBounds)
            } else {
                let sprite = spec_sprite(s.mem, s.i as int, n as int);
                let col = draw_collision(pixels, s.v[x as int] as int, s.v[y as int] as int, sprite);
                Ok(
                    StepEffect {
                        core: CoreView {
                            v: s.v.update(
                                FLAG_REG as int,
                                if col {
                                    1u8
                                } else {
                                    0u8
                                },
                            ),
                            pc: pc2,
                            ..s
                        },
                        pixels: draw_pixels(
                            pixels,
                            s.v[x as int] as int,
                            s.v[y as int] as int,
                            sprite,
                        ),
                        disp_touched: true,
                        set_delay: None,
                        play: None,
                    },
                )
            }
        },
        Instr::SkipKeyDown(x) => {
            if s.v[x as int] >= NUM_KEYS {
                Err(VmError::KeyOutOfRange(s.v[x as int]))
            } else {
                Ok(
                    core_effect(
                        CoreView { pc: skip_pc(s.pc, keys[s.v[x as int] as int]), ..s },
                        pixels,
                    ),
                )
            }
        },
        Instr::SkipKeyUp(x) => {
            if s.v[x as int] >= NUM_KEYS {
                Err(VmError::KeyOutOfRange(s.v[x as int]))
            } else {
                Ok(
                    core_effect(
                        CoreView { pc: skip_pc(s.pc, !keys[s.v[x as int] as int]), ..s },
                        pixels,
                    ),
                )
            }
        },
        Instr::GetDelay(x) => Ok(
            core_effect(CoreView { v: s.v.update(x as int, delay), pc: pc2, ..s }, pixels),
        ),
        Instr::WaitKey(x) => {
            match first_down_from(keys, 0) {
                Some(k) => Ok(
                    core_effect(CoreView { v: s.v.update(x as int, k), pc: pc2, ..s }, pixels),
                ),
                None => Ok(core_effect(s, pixels)),
            }
        },
        Instr::SetDelay(x) => Ok(
            StepEffect {
                core: CoreView { pc: pc2, ..s },
                pixels,
                disp_touched: false,
                set_delay: Some(s.v[x as int]),
                play: None,
            },
        ),
        Instr::Sound(x) => Ok(
            StepEffect {
                core: CoreView { pc: pc2, ..s },
                pixels,
                disp_touched: false,
                set_delay: None,
                play: Some(s.v[x as int]),
            },
        ),
        Instr::AddIndex(x) => Ok(
            core_effect(
                CoreView { i: ((s.i + s.v[x as int]) % 0x10000) as u16, pc: pc2, ..s },
                pixels,
            ),
        ),
        Instr::GlyphIndex(x) => Ok(
            core_effect(CoreView { i: (s.v[x as int] * 5) as u16, pc: pc2, ..s }, pixels),
        ),
        Instr::StoreBcd(x) => {
            if s.i + 2 >= MEM_SIZE {
                Err(VmError::MemoryOutOfBounds)
            } else {
                let vx = s.v[x as int];
                Ok(
                    core_effect(
                        CoreView {
                            mem: s.mem.update(s.i as int, (vx / 100) as u8).update(
                                s.i + 1,
                                ((vx % 100) / 10) as u8,
                            ).update(s.i + 2, (vx % 10) as u8),
                            pc: pc2,
                            ..s
                        },
                        pixels,
                    ),
                )
            }
        },
        Instr::StoreRegs(x) => {
            if s.i + x >= MEM_SIZE {
                Err(VmError::MemoryOutOfBounds)
            } else {
                Ok(
                    core_effect(
                        CoreView {
                            mem: spec_store_regs(s.mem, s.v, s.i as int, x as int),
                            pc: pc2,
                            ..s
                        },
                        pixels,
                    ),
                )
            }
        },
        Instr::LoadRegs(x) => {
            if s.i + x >= MEM_SIZE {
                Err(VmError::MemoryOutOfBounds)
            } else {
                Ok(
                    core_effect(
                        CoreView {
                            v: spec_load_regs(s.v, s.mem, s.i as int, x as int),
                            pc: pc2,
                            ..s
                        },
                        pixels,
                    ),
                )
            }
        },
    }
}

/// One fetch-decode-execute step on the machine state `s`: fetch the word
/// at the program counter (fatal past the memory bound), decode it (an
/// unmapped word is fatal, carrying the literal opcode), and execute it.
pub open spec fn spec_step(
    s: CoreView,
    pixels: Seq<bool>,
    keys: Seq<bool>,
    delay: u8,
    rnd: u8,
) -> Result<StepEffect, VmError> {
    if s.pc + 1 >= MEM_SIZE {
        Err(VmError::MemoryOutOfBounds)
    } else {
        let op = spec_fetch(s);
        match spec_decode(op) {
            None => Err(VmError::UnknownInstruction(op)),
            Some(instr) => spec_exec(s, pixels, keys, delay, rnd, instr),
        }
    }
}

/// The full contract of one step, relating the states of the core and the
/// attached devices before and after the call, the step's result, and the
/// random byte drawn for the cycle.
pub open spec fn step_post(
    core0: CoreView,
    disp0: DisplayView,
    keys: Seq<bool>,
    timer0: TimerView,
    audio0: AudioView,
    core1: CoreView,
    disp1: DisplayView,
    timer1: TimerView,
    audio1: AudioView,
    r: Result<(), VmError>,
    rnd: u8,
) -> bool {
    match spec_step(core0, disp0.pixels, keys, timer0.time, rnd) {
        Ok(eff) => {
            &&& r == Ok::<(), VmError>(())
            &&& core1 == eff.core
            &&& disp1.pixels == eff.pixels
            &&& disp1.refresh == (disp0.refresh || eff.disp_touched)
            &&& timer1 == (match eff.set_delay {
                Some(d) => timer0.set_spec(d),
                None => timer0,
            })
            &&& audio1 == (match eff.play {
                Some(d) => audio0.play_spec(d),
                None => audio0,
            })
        },
        Err(e) => {
            &&& r == Err::<(), VmError>(e)
            &&& core1 == core0
            &&& disp1 == disp0
            &&& timer1 == timer0
            &&& audio1 == audio0
        },
    }
}

/// Relies on rand::random: draws one byte from the thread-local random
/// number generator. Nothing is promised of the value.
#[verifier::external_body]
fn random_byte() -> u8 {
    rand::random::<u8>()
}

impl Machine {
    /// Create a machine with zeroed memory and registers, an empty stack,
    /// and the program counter at the ROM offset, where execution starts.
    pub fn new() -> (m: Machine)
        ensures
            m@.wf(),
            forall|k: int| 0 <= k < MEM_SIZE ==> m@.mem[k] == 0u8,
            forall|k: int| 0 <= k < NUM_REGS ==> m@.v[k] == 0u8,
            m@.i == 0u16,
            m@.pc == ROM_OFFSET as u16,
            m@.stack.len() == 0,
    {
        let memory = new_memory();
        let mut v: Vec<u8> = Vec::new();
        let mut k: usize = 0;
        while k < NUM_REGS
            invariant
                v@.len() == k,
                k <= NUM_REGS,
                forall|j: int| 0 <= j < k ==> v@[j] == 0u8,
            decreases NUM_REGS - k,
        {
            v.push(0);
            k = k + 1;
        }
        Machine { memory, v, i: 0, pc: 512, stack: Vec::new() }
    }

    /// Load a ROM image into memory at the ROM offset.
    pub fn load_rom(&mut self, rom: &Vec<u8>) -> (r: Result<(), VmError>)
        requires
            old(self)@.wf(),
        ensures
            final(self)@.wf(),
            final(self)@.v == old(self)@.v,
            final(self)@.i == old(self)@.i,
            final(self)@.pc == old(self)@.pc,
            final(self)@.stack == old(self)@.stack,
            rom@.len() == 0 ==> r == Err::<(), VmError>(VmError::RomEmpty) && final(self)@.mem
                == old(self)@.mem,
            rom@.len() > MEM_SIZE - ROM_OFFSET ==> r == Err::<(), VmError>(VmError::RomTooLarge)
                && final(self)@.mem == old(self)@.mem,
            (0 < rom@.len() <= MEM_SIZE - ROM_OFFSET) ==> r == Ok::<(), VmError>(()) && (forall|
                k: int,
            |
                0 <= k < rom@.len() ==> final(self)@.mem[ROM_OFFSET + k] == rom@[k]) && (forall|
                k: int,
            |
                0 <= k < MEM_SIZE && !(ROM_OFFSET <= k < ROM_OFFSET + rom@.len())
                    ==> final(self)@.mem[k] == old(self)@.mem[k]),
    {
        load_rom(&mut self.memory, rom)
    }

    /// Load the built-in glyph table into the reserved low-memory region.
    pub fn load_character_set(&mut self)
        requires
            old(self)@.wf(),
        ensures
            final(self)@.wf(),
            final(self)@.v == old(self)@.v,
            final(self)@.i == old(self)@.i,
            final(self)@.pc == old(self)@.pc,
            final(self)@.stack == old(self)@.stack,
            forall|k: int|
                0 <= k < 80 ==> final(self)@.mem[k] == crate::memory::glyph_byte(k),
            forall|k: int| 80 <= k < MEM_SIZE ==> final(self)@.mem[k] == old(self)@.mem[k],
    {
        load_character_set(&mut self.memory);
    }

    /// Read a general register.
    pub fn reg(&self, x: u8) -> (r: u8)
        requires
            self@.wf(),
            x < NUM_REGS,
        ensures
            r == self@.v[x as int],
    {
        self.v[x as usize]
    }

    /// Read the address register.
    pub fn address_reg(&self) -> (r: u16)
        ensures
            r == self@.i,
    {
        self.i
    }

    /// Read the program counter.
    pub fn program_counter(&self) -> (r: u16)
        ensures
            r == self@.pc,
    {
        self.pc
    }

    /// Read a byte of memory.
    pub fn mem_at(&self, addr: u16) -> (r: u8)
        requires
            self@.wf(),
            addr < MEM_SIZE,
        ensures
            r == self@.mem[addr as int],
    {
        self.memory[addr as usize]
    }

    /// Depth of the call stack.
    pub fn stack_depth(&self) -> (r: usize)
        ensures
            r == self@.stack.len(),
    {
        self.stack.len()
    }

    /// One register-register instruction 0x8XYk.
    fn exec_alu(&mut self, x: u8, y: u8, k: u8)
        requires
            old(self)@.wf(),
            x < NUM_REGS,
            y < NUM_REGS,
            k <= 7 || k == 0xE,
        ensures
            final(self)@ == (CoreView {
                v: spec_alu(old(self)@.v, x as int, y as int, k),
                ..old(self)@
            }),
            final(self)@.wf(),
    {
        let xi = x as usize;
        let yi = y as usize;
        if k == 0 {
            let val = self.v[yi];
            self.v[xi] = val;
        } else if k == 1 {
            let val = self.v[xi] | self.v[yi];
            self.v[xi] = val;
        } else if k == 2 {
            let val = self.v[xi] & self.v[yi];
            self.v[xi] = val;
        } else if k == 3 {
            let val = self.v[xi] ^ self.v[yi];
            self.v[xi] = val;
        } else if k == 4 {
            let sum = self.v[xi] as u16 + self.v[yi] as u16;
            self.v[xi] = (sum % 0x100) as u8;
            self.v[FLAG_REG] = if sum > 0xFF {
                1
            } else {
                0
            };
        } else if k == 5 {
            let flag: u8 = if self.v[yi] > self.v[xi] {
                0
            } else {
                1
            };
            let diff = ((self.v[xi] as u16 + 0x100 - self.v[yi] as u16) % 0x100) as u8;
            self.v[xi] = diff;
            self.v[FLAG_REG] = flag;
        } else if k == 6 {
            let flag = self.v[xi] % 2;
            self.v[FLAG_REG] = flag;
            let val = self.v[xi];
            self.v[xi] = val / 2;
        } else if k == 7 {
            let flag: u8 = if self.v[xi] > self.v[yi] {
                0
            } else {
                1
            };
            let diff = ((self.v[yi] as u16 + 0x100 - self.v[xi] as u16) % 0x100) as u8;
            self.v[xi] = diff;
            self.v[FLAG_REG] = flag;
        } else {
            let flag: u8 = if self.v[xi] >= 0x80 {
                0x80
            } else {
                0
            };
            self.v[FLAG_REG] = flag;
            let val = self.v[xi];
            self.v[xi] = ((val as u16 * 2) % 0x100) as u8;
        }
    }

    /// Store the decimal digits of Vx at the address register.
    fn exec_store_bcd(&mut self, x: u8)
        requires
            old(self)@.wf(),
            x < NUM_REGS,
            old(self)@.i + 2 < MEM_SIZE,
        ensures
            final(self)@ == (CoreView {
                mem: {
                    let vx = old(self)@.v[x as int];
                    old(self)@.mem.update(old(self)@.i as int, (vx / 100) as u8).update(
                        old(self)@.i + 1,
                        ((vx % 100) / 10) as u8,
                    ).update(old(self)@.i + 2, (vx % 10) as u8)
                },
                ..old(self)@
            }),
            final(self)@.wf(),
    {
        let vx = self.v[x as usize];
        let base = self.i as usize;
        self.memory[base] = vx / 100;
        self.memory[base + 1] = (vx % 100) / 10;
        self.memory[base + 2] = vx % 10;
    }

    /// Store registers V0..=Vx into memory at the address register.
    fn exec_store_regs(&mut self, x: u8)
        requires
            old(self)@.wf(),
            x < NUM_REGS,
            old(self)@.i + x < MEM_SIZE,
        ensures
            final(self)@ == (CoreView {
                mem: spec_store_regs(old(self)@.mem, old(self)@.v, old(self)@.i as int, x as int),
                ..old(self)@
            }),
            final(self)@.wf(),
    {
        let base = self.i as usize;
        let mut j: usize = 0;
        while j <= x as usize
            invariant
                self@.wf(),
                x < NUM_REGS,
                j <= x + 1,
                base == old(self)@.i as int,
                base + x < MEM_SIZE,
                self@.v == old(self)@.v,
                self@.i == old(self)@.i,
                self@.pc == old(self)@.pc,
                self@.stack == old(self)@.stack,
                forall|k: int| base <= k < base + j ==> self@.mem[k] == old(self)@.v[k - base],
                forall|k: int|
                    0 <= k < MEM_SIZE && !(base <= k < base + j) ==> self@.mem[k] == old(
                        self,
                    )@.mem[k],
            decreases x + 1 - j,
        {
            let val = self.v[j];
            self.memory[base + j] = val;
            j = j + 1;
        }
        proof {
            assert(self@.mem =~= spec_store_regs(
                old(self)@.mem,
                old(self)@.v,
                old(self)@.i as int,
                x as int,
            ));
        }
    }

    /// Load registers V0..=Vx from memory at the address register.
    fn exec_load_regs(&mut self, x: u8)
        requires
            old(self)@.wf(),
            x < NUM_REGS,
            old(self)@.i + x < MEM_SIZE,
        ensures
            final(self)@ == (CoreView {
                v: spec_load_regs(old(self)@.v, old(self)@.mem, old(self)@.i as int, x as int),
                ..old(self)@
            }),
            final(self)@.wf(),
    {
        let base = self.i as usize;
        let mut j: usize = 0;
        while j <= x as usize
            invariant
                self@.wf(),
                x < NUM_REGS,
                j <= x + 1,
                base == old(self)@.i as int,
                base + x < MEM_SIZE,
                self@.mem == old(self)@.mem,
                self@.i == old(self)@.i,
                self@.pc == old(self)@.pc,
                self@.stack == old(self)@.stack,
                forall|k: int| 0 <= k < j ==> self@.v[k] == old(self)@.mem[base + k],
                forall|k: int| j <= k < NUM_REGS ==> self@.v[k] == old(self)@.v[k],
            decreases x + 1 - j,
        {
            let val = self.memory[base + j];
            self.v[j] = val;
            j = j + 1;
        }
        proof {
            assert(self@.v =~= spec_load_regs(
                old(self)@.v,
                old(self)@.mem,
                old(self)@.i as int,
                x as int,
            ));
        }
    }

    /// Draw the N-byte sprite at the address register to (Vx, Vy) and set
    /// the flag register to the collision result.
    fn exec_draw(&mut self, display: &mut Display, x: u8, y: u8, n: u8)
        requires
            old(self)@.wf(),
            old(display)@.wf(),
            x < NUM_REGS,
            y < NUM_REGS,
            n < 16,
            n > 0 ==> old(self)@.i + n <= MEM_SIZE,
        ensures
            final(self)@ == (CoreView {
                v: old(self)@.v.update(
                    FLAG_REG as int,
                    if draw_collision(
                        old(display)@.pixels,
                        old(self)@.v[x as int] as int,
                        old(self)@.v[y as int] as int,
                        spec_sprite(old(self)@.mem, old(self)@.i as int, n as int),
                    ) {
                        1u8
                    } else {
                        0u8
                    },
                ),
                ..old(self)@
            }),
            final(self)@.wf(),
            final(display)@.wf(),
            final(display)@.pixels == draw_pixels(
                old(display)@.pixels,
                old(self)@.v[x as int] as int,
                old(self)@.v[y as int] as int,
                spec_sprite(old(self)@.mem, old(self)@.i as int, n as int),
            ),
            final(display)@.refresh == true,
    {
        let base = self.i as usize;
        let mut sprite: Vec<u8> = Vec::new();
        let mut j: usize = 0;
        while j < n as usize
            invariant
                self@.wf(),
                n < 16,
                j <= n,
                n > 0 ==> base + n <= MEM_SIZE,
                base == self@.i as int,
                sprite@.len() == j,
                forall|k: int| 0 <= k < j ==> sprite@[k] == self@.mem[base + k],
            decreases n - j,
        {
            let b = self.memory[base + j];
            sprite.push(b);
            j = j + 1;
        }
        proof {
            assert(sprite@ =~= spec_sprite(self@.mem, self@.i as int, n as int));
        }
        let col = display.draw(self.v[x as usize], self.v[y as usize], &sprite);
        self.v[FLAG_REG] = if col {
            1
        } else {
            0
        };
    }

    /// Execute one already-fetched, already-decoded instruction.
    fn exec_instr(
        &mut self,
        display: &mut Display,
        keyboard: &Keyboard,
        timer: &mut Timer,
        audio: &mut Audio,
        rnd: u8,
        instr: Instr,
    ) -> (r: Result<(), VmError>)
        requires
            old(self)@.wf(),
            old(display)@.wf(),
            keyboard@.wf(),
            old(timer)@.wf(),
            old(audio)@.wf(),
            old(self)@.pc + 4 <= 0xFFFF,
            spec_decode(spec_fetch(old(self)@)) == Some(instr),
        ensures
            final(self)@.wf(),
            final(display)@.wf(),
            final(timer)@.wf(),
            final(audio)@.wf(),
            match spec_exec(
                old(self)@,
                old(display)@.pixels,
                keyboard@.keys,
                old(timer)@.time,
                rnd,
                instr,
            ) {
                Ok(eff) => {
                    &&& r == Ok::<(), VmError>(())
                    &&& final(self)@ == eff.core
                    &&& final(display)@.pixels == eff.pixels
                    &&& final(display)@.refresh == (old(display)@.refresh || eff.disp_touched)
                    &&& final(timer)@ == (match eff.set_delay {
                        Some(d) => old(timer)@.set_spec(d),
                        None => old(timer)@,
                    })
                    &&& final(audio)@ == (match eff.play {
                        Some(d) => old(audio)@.play_spec(d),
                        None => old(audio)@,
                    })
                },
                Err(e) => {
                    &&& r == Err::<(), VmError>(e)
                    &&& final(self)@ == old(self)@
                    &&& final(display)@ == old(display)@
                    &&& final(timer)@ == old(timer)@
                    &&& final(audio)@ == old(audio)@
                },
            },
    {
        match instr {
            Instr::ClearScreen => {
                display.clear();
                self.pc = self.pc + 2;
                Ok(())
            },
            Instr::Ret => {
                match self.stack.pop() {
                    Some(addr) => {
                        self.pc = addr;
                        Ok(())
                    },
                    None => Err(VmError::StackUnderflow),
                }
            },
            Instr::Call(a) => {
                self.stack.push(self.pc + 2);
                self.pc = a;
                Ok(())
            },
            Instr::Jump(a) => {
                self.pc = a;
                Ok(())
            },
            Instr::SkipEqImm(x, nn) => {
                if self.v[x as usize] == nn {
                    self.pc = self.pc + 4;
                } else {
                    self.pc = self.pc + 2;
                }
                Ok(())
            },
            Instr::SkipNeImm(x, nn) => {
                if self.v[x as usize] != nn {
                    self.pc = self.pc + 4;
                } else {
                    self.pc = self.pc + 2;
                }
                Ok(())
            },
            Instr::SkipEqReg(x, y) => {
                if self.v[x as usize] == self.v[y as usize] {
                    self.pc = self.pc + 4;
                } else {
                    self.pc = self.pc + 2;
                }
                Ok(())
            },
            Instr::SetImm(x, nn) => {
                self.v[x as usize] = nn;
                self.pc = self.pc + 2;
                Ok(())
            },
            Instr::AddImm(x, nn) => {
                let val = ((self.v[x as usize] as u16 + nn as u16) % 0x100) as u8;
                self.v[x as usize] = val;
                self.pc = self.pc + 2;
                Ok(())
            },
            Instr::Alu(x, y, k) => {
                self.exec_alu(x, y, k);
                self.pc = self.pc + 2;
                Ok(())
            },
            Instr::SkipNeReg(x, y) => {
                if self.v[x as usize] != self.v[y as usize] {
                    self.pc = self.pc + 4;
                } else {
                    self.pc = self.pc + 2;
                }
                Ok(())
            },
            Instr::SetIndex(a) => {
                self.i = a;
                self.pc = self.pc + 2;
                Ok(())
            },
            Instr::JumpV0(a) => {
                self.pc = self.v[0] as u16 + a;
                Ok(())
            },
            Instr::Rand(x, nn) => {
                self.v[x as usize] = rnd & nn;
                self.pc = self.pc + 2;
                Ok(())
            },
            Instr::Draw(x, y, n) => {
                if n > 0 && self.i as usize + n as usize > MEM_SIZE {
                    return Err(VmError::MemoryOutOfBounds);
                }
                self.exec_draw(display, x, y, n);
                self.pc = self.pc + 2;
                Ok(())
            },
            Instr::SkipKeyDown(x) => {
                let vx = self.v[x as usize];
                if vx as usize >= NUM_KEYS {
                    return Err(VmError::KeyOutOfRange(vx));
                }
                if keyboard.is_down(vx) {
                    self.pc = self.pc + 4;
                } else {
                    self.pc = self.pc + 2;
                }
                Ok(())
            },
            Instr::SkipKeyUp(x) => {
                let vx = self.v[x as usize];
                if vx as usize >= NUM_KEYS {
                    return Err(VmError::KeyOutOfRange(vx));
                }
                if !keyboard.is_down(vx) {
                    self.pc = self.pc + 4;
                } else {
                    self.pc = self.pc + 2;
                }
                Ok(())
            },
            Instr::GetDelay(x) => {
                self.v[x as usize] = timer.get();
                self.pc = self.pc + 2;
                Ok(())
            },
            Instr::WaitKey(x) => {
                match keyboard.first_key_down() {
                    Some(k) => {
                        self.v[x as usize] = k;
                        self.pc = self.pc + 2;
                    },
                    None => {},
                }
                Ok(())
            },
            Instr::SetDelay(x) => {
                timer.set(self.v[x as usize]);
                self.pc = self.pc + 2;
                Ok(())
            },
            Instr::Sound(x) => {
                audio.play_sound(self.v[x as usize]);
                self.pc = self.pc + 2;
                Ok(())
            },
            Instr::AddIndex(x) => {
                let val = ((self.i as u32 + self.v[x as usize] as u32) % 0x10000) as u16;
                self.i = val;
                self.pc = self.pc + 2;
                Ok(())
            },
            Instr::GlyphIndex(x) => {
                self.i = self.v[x as usize] as u16 * 5;
                self.pc = self.pc + 2;
                Ok(())
            },
            Instr::StoreBcd(x) => {
                if self.i as usize + 2 >= MEM_SIZE {
                    return Err(VmError::MemoryOutOfBounds);
                }
                self.exec_store_bcd(x);
                self.pc = self.pc + 2;
                Ok(())
            },
            Instr::StoreRegs(x) => {
                if self.i as usize + x as usize >= MEM_SIZE {
                    return Err(VmError::MemoryOutOfBounds);
                }
                self.exec_store_regs(x);
                self.pc = self.pc + 2;
                Ok(())
            },
            Instr::LoadRegs(x) => {
                if self.i as usize + x as usize >= MEM_SIZE {
                    return Err(VmError::MemoryOutOfBounds);
                }
                self.exec_load_regs(x);
                self.pc = self.pc + 2;
                Ok(())
            },
        }
    }

    /// One fetch-decode-execute step, deterministic in the random byte
    /// drawn for the cycle: reads the two bytes at the program counter as a
    /// big-endian instruction word, advances the program counter by 2
    /// unless the instruction itself sets it, and performs exactly that one
    /// instruction's effects on registers, memory, stack, display, delay
    /// timer and audio trigger. A fatal condition leaves every component
    /// unchanged and reports the error.
    pub fn step_with(
        &mut self,
        display: &mut Display,
        keyboard: &Keyboard,
        timer: &mut Timer,
        audio: &mut Audio,
        rnd: u8,
    ) -> (r: Result<(), VmError>)
        requires
            old(self)@.wf(),
            old(display)@.wf(),
            keyboard@.wf(),
            old(timer)@.wf(),
            old(audio)@.wf(),
        ensures
            final(self)@.wf(),
            final(display)@.wf(),
            final(timer)@.wf(),
            final(audio)@.wf(),
            step_post(
                old(self)@,
                old(display)@,
                keyboard@.keys,
                old(timer)@,
                old(audio)@,
                final(self)@,
                final(display)@,
                final(timer)@,
                final(audio)@,
                r,
                rnd,
            ),
    {
        if self.pc as usize + 1 >= MEM_SIZE {
            return Err(VmError::MemoryOutOfBounds);
        }
        let hi = self.memory[self.pc as usize];
        let lo = self.memory[self.pc as usize + 1];
        let op: u16 = (hi as u16) * 0x100 + lo as u16;
        proof {
            assert(op == spec_fetch(self@));
        }
        match decode(op) {
            None => Err(VmError::UnknownInstruction(op)),
            Some(instr) => self.exec_instr(display, keyboard, timer, audio, rnd, instr),
        }
    }

    /// One fetch-decode-execute step. The random byte the 0xCXNN
    /// instruction masks is drawn inside; every other effect is that of
    /// `step_with` for the drawn byte.
    pub fn step(
        &mut self,
        display: &mut Display,
        keyboard: &Keyboard,
        timer: &mut Timer,
        audio: &mut Audio,
    ) -> (r: Result<(), VmError>)
        requires
            old(self)@.wf(),
            old(display)@.wf(),
            keyboard@.wf(),
            old(timer)@.wf(),
            old(audio)@.wf(),
        ensures
            final(self)@.wf(),
            final(display)@.wf(),
            final(timer)@.wf(),
            final(audio)@.wf(),
            exists|rnd: u8|
                step_post(
                    old(self)@,
                    old(display)@,
                    keyboard@.keys,
                    old(timer)@,
                    old(audio)@,
                    final(self)@,
                    final(display)@,
                    final(timer)@,
                    final(audio)@,
                    r,
                    rnd,
                ),
    {
        let rnd = random_byte();
        let r = self.step_with(display, keyboard, timer, audio, rnd);
        proof {
            assert(step_post(
                old(self)@,
                old(display)@,
                keyboard@.keys,
                old(timer)@,
                old(audio)@,
                self@,
                display@,
                timer@,
                audio@,
                r,
                rnd,
            ));
        }
        r
    }
}

/// A jump to the instruction's own address (0x1NNN with NNN the current
/// program counter) is a valid, non-terminating transition: the step
/// succeeds and leaves the machine, the framebuffer and the devices exactly
/// as they were.
pub proof fn lemma_jump_to_self(
    s: CoreView,
    pixels: Seq<bool>,
    keys: Seq<bool>,
    delay: u8,
    rnd: u8,
)
    requires
        s.wf(),
        s.pc + 1 < MEM_SIZE,
        spec_reg(spec_fetch(s), 0) == 0x1,
        spec_fetch(s) % 0x1000 == s.pc,
    ensures
        spec_step(s, pixels, keys, delay, rnd) == Ok::<StepEffect, VmError>(
            core_effect(s, pixels),
        ),
{
    let op = spec_fetch(s);
    assert(spec_decode(op) == Some(Instr::Jump((op % 0x1000) as u16)));
    assert((op % 0x1000) as u16 == s.pc);
    assert(CoreView { pc: (op % 0x1000) as u16, ..s } == s);
}

/// Executing a call instruction (0x2NNN) and then the return instruction
/// it jumps to restores the program counter to exactly the instruction
/// following the call, with the stack, registers and memory as before the
/// call.
pub proof fn lemma_call_return_round_trip(
    s: CoreView,
    pixels: Seq<bool>,
    keys: Seq<bool>,
    delay: u8,
    rnd1: u8,
    rnd2: u8,
)
    requires
        s.wf(),
        s.pc + 1 < MEM_SIZE,
        spec_reg(spec_fetch(s), 0) == 0x2,
        spec_fetch(s) % 0x1000 + 1 < MEM_SIZE,
        s.mem[spec_fetch(s) as int % 0x1000] == 0x00u8,
        s.mem[spec_fetch(s) as int % 0x1000 + 1] == 0xEEu8,
    ensures
        ({
            let nnn = (spec_fetch(s) % 0x1000) as u16;
            let mid = CoreView { pc: nnn, stack: s.stack.push((s.pc + 2) as u16), ..s };
            &&& spec_step(s, pixels, keys, delay, rnd1) == Ok::<StepEffect, VmError>(
                core_effect(mid, pixels),
            )
            &&& spec_step(mid, pixels, keys, delay, rnd2) == Ok::<StepEffect, VmError>(
                core_effect(CoreView { pc: (s.pc + 2) as u16, ..s }, pixels),
            )
        }),
{
    let op = spec_fetch(s);
    let nnn = (op % 0x1000) as u16;
    let mid = CoreView { pc: nnn, stack: s.stack.push((s.pc + 2) as u16), ..s };
    assert(spec_decode(op) == Some(Instr::Call(nnn)));
    let op2 = spec_fetch(mid);
    assert(op2 == 0x00EE);
    assert(spec_decode(op2) == Some(Instr::Ret));
    assert(mid.stack.last() == (s.pc + 2) as u16);
    assert(mid.stack.drop_last() =~= s.stack);
    assert(CoreView { pc: mid.stack.last(), stack: mid.stack.drop_last(), ..mid } == (CoreView {
        pc: (s.pc + 2) as u16,
        ..s
    }));
}

/// An unmapped opcode word is a fatal condition, never a silent no-op, and
/// the diagnostic carries the literal offending opcode.
pub proof fn lemma_unknown_opcode_fatal(
    s: CoreView,
    pixels: Seq<bool>,
    keys: Seq<bool>,
    delay: u8,
    rnd: u8,
)
    requires
        s.wf(),
        s.pc + 1 < MEM_SIZE,
        spec_decode(spec_fetch(s)) is None,
    ensures
        spec_step(s, pixels, keys, delay, rnd) == Err::<StepEffect, VmError>(
            VmError::UnknownInstruction(spec_fetch(s)),
        ),
{
}

/// Storing registers V0..=Vx at an address (0xFX55) and then loading
/// V0..=Vx back from the same address (0xFX65) restores every register
/// exactly.
pub proof fn lemma_store_load_round_trip(mem: Seq<u8>, v: Seq<u8>, i: int, x: int)
    requires
        mem.len() == MEM_SIZE,
        v.len() == NUM_REGS,
        0 <= x < NUM_REGS,
        0 <= i,
        i + x < MEM_SIZE,
    ensures
        spec_load_regs(v, spec_store_regs(mem, v, i, x), i, x) == v,
{
    assert(spec_load_regs(v, spec_store_regs(mem, v, i, x), i, x) =~= v);
}

/// The instruction-level form of the store/load round trip: a store
/// instruction (0xFX55) followed by a load instruction with the same X and
/// the same address register (0xFX65, written with the same high byte right
/// after the store) leaves every register as it was, with the program
/// counter past both instructions and the stored bytes in memory. The store
/// must not overwrite the load instruction itself.
pub proof fn lemma_store_load_steps(
    s: CoreView,
    pixels: Seq<bool>,
    keys: Seq<bool>,
    delay: u8,
    rnd1: u8,
    rnd2: u8,
)
    requires
        s.wf(),
        s.pc + 3 < MEM_SIZE,
        spec_fetch(s) as int / 0x100 == 0xF0 + spec_reg(spec_fetch(s), 1),
        spec_fetch(s) as int % 0x100 == 0x55,
        s.mem[s.pc + 2] == s.mem[s.pc as int],
        s.mem[s.pc + 3] == 0x65u8,
        s.i + spec_reg(spec_fetch(s), 1) < MEM_SIZE,
        s.i + spec_reg(spec_fetch(s), 1) < s.pc + 2 || s.i > s.pc + 3,
    ensures
        ({
            let x = spec_reg(spec_fetch(s), 1);
            let mid = CoreView {
                mem: spec_store_regs(s.mem, s.v, s.i as int, x),
                pc: (s.pc + 2) as u16,
                ..s
            };
            &&& spec_step(s, pixels, keys, delay, rnd1) == Ok::<StepEffect, VmError>(
                core_effect(mid, pixels),
            )
            &&& spec_step(mid, pixels, keys, delay, rnd2) == Ok::<StepEffect, VmError>(
                core_effect(CoreView { pc: (s.pc + 4) as u16, ..mid }, pixels),
            )
        }),
{
    let op1 = spec_fetch(s);
    let x = spec_reg(op1, 1);
    let hi = s.mem[s.pc as int];
    let lo = s.mem[s.pc as int + 1];
    assert(op1 == hi * 0x100 + lo);
    assert(op1 as int / 0x100 == hi) by (nonlinear_arith)
        requires op1 == hi * 0x100 + lo, 0 <= lo < 0x100, 0 <= hi < 0x100;
    assert(spec_reg(op1, 0) == 0xF && spec_reg(op1, 1) == hi % 16) by (nonlinear_arith)
        requires op1 == hi * 0x100 + lo, 0 <= lo < 0x100, 0x00F0 <= hi < 0x100,
            op1 as int / 0x100 == hi, hi == 0xF0 + (op1 as int / 0x100) % 16;
    assert(spec_decode(op1) == Some(Instr::StoreRegs(x as u8)));
    let mid = CoreView {
        mem: spec_store_regs(s.mem, s.v, s.i as int, x),
        pc: (s.pc + 2) as u16,
        ..s
    };
    assert(spec_exec(s, pixels, keys, delay, rnd1, Instr::StoreRegs(x as u8)) == Ok::<
        StepEffect,
        VmError,
    >(core_effect(mid, pixels)));

    // the store leaves the second instruction's bytes as they were
    assert(mid.mem[s.pc + 2] == hi && mid.mem[s.pc + 3] == 0x65u8);
    let op2 = spec_fetch(mid);
    assert(op2 == hi * 0x100 + 0x65);
    assert(op2 as int / 0x100 == hi && op2 as int % 0x100 == 0x65) by (nonlinear_arith)
        requires op2 == hi * 0x100 + 0x65, 0 <= hi < 0x100;
    assert(spec_reg(op2, 0) == 0xF && spec_reg(op2, 1) == hi % 16) by (nonlinear_arith)
        requires op2 as int / 0x100 == hi, 0x00F0 <= hi < 0x100;
    assert(spec_decode(op2) == Some(Instr::LoadRegs(x as u8)));

    // loading from the freshly stored bytes restores every register
    lemma_store_load_round_trip(s.mem, s.v, s.i as int, x);
    assert(spec_load_regs(mid.v, mid.mem, mid.i as int, x) == s.v);
    assert(CoreView { v: spec_load_regs(mid.v, mid.mem, mid.i as int, x), pc: (s.pc + 4) as u16, ..mid }
        == (CoreView { pc: (s.pc + 4) as u16, ..mid }));
}

} // verus!

