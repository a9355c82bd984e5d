//! The interpreter engine: fetch, decode, dispatch.
//!
//! `cycle` performs exactly one step of the instruction-set model
//! (`isa::step_spec`): it fetches the word at `pc`, advances `pc` by 2, and
//! dispatches on the opcode class.  Every handler is proved to produce the
//! state the model prescribes.

use vstd::prelude::*;
use crate::Chip8Error;
use crate::filled_vec;
use crate::isa::CpuState;
use crate::isa::alu_known;
use crate::isa::alu_regs;
use crate::isa::bit_at;
use crate::isa::draw_cols;
use crate::isa::draw_rows;
use crate::isa::op_class;
use crate::isa::op_n;
use crate::isa::op_nn;
use crate::isa::op_nnn;
use crate::isa::op_x;
use crate::isa::op_y;
use crate::isa::pc_plus_2;
use crate::isa::regs_loaded;
use crate::isa::step_spec;
use crate::mmu::MMU;
use crate::mmu::MemState;
use crate::mmu::block_written;
use crate::mmu::word_at;

verus! {

pub struct CPU {
    pc: u16,
    sp: u16,
    i: u16,
    stack: Vec<u16>,
    registers: Vec<u8>,
}

impl View for CPU {
    type V = CpuState;

    closed spec fn view(&self) -> CpuState {
        CpuState { pc: self.pc, sp: self.sp, i: self.i, stack: self.stack@, regs: self.registers@ }
    }
}

impl CPU {
    /// The call stack holds 16 return addresses, the register file 16
    /// registers, the stack pointer stays within the stack, and the address
    /// register keeps to the 12 bits an `ANNN` instruction can set.
    pub open spec fn wf(&self) -> bool {
        &&& self@.stack.len() == 16
        &&& self@.regs.len() == 16
        &&& self@.sp <= 16
        &&& self@.i <= 0xFFF
    }

    /// A CPU about to fetch its first instruction at `program_start`.
    pub fn new(program_start: u16) -> (cpu: CPU)
        ensures
            cpu.wf(),
            cpu@ == (CpuState {
                pc: program_start,
                sp: 0,
                i: 0,
                stack: Seq::new(16, |j: int| 0u16),
                regs: Seq::new(16, |j: int| 0u8),
            }),
    {
        let cpu = CPU {
            pc: program_start,
            sp: 0,
            i: 0,
            stack: filled_vec(16, 0u16),
            registers: filled_vec(16, 0u8),
        };
        proof {
            assert(cpu@.stack =~= Seq::new(16, |j: int| 0u16));
            assert(cpu@.regs =~= Seq::new(16, |j: int| 0u8));
        }
        cpu
    }

    /// The program counter: address of the next instruction.
    pub fn pc(&self) -> (r: u16)
        ensures
            r == self@.pc,
    {
        self.pc
    }

    /// The stack pointer: number of return addresses on the call stack.
    pub fn sp(&self) -> (r: u16)
        ensures
            r == self@.sp,
    {
        self.sp
    }

    /// The 16-bit address register.
    pub fn index_reg(&self) -> (r: u16)
        ensures
            r == self@.i,
    {
        self.i
    }

    /// General-purpose register `x`.
    pub fn reg(&self, x: usize) -> (r: u8)
        requires
            self.wf(),
            x < 16,
        ensures
            r == self@.regs[x as int],
    {
        self.registers[x]
    }

    /// One step of the interpreter, exactly as `step_spec` prescribes:
    /// fetch the word at `pc` big-endian, advance `pc` by 2, decode and
    /// dispatch.  A step that fails reports why, leaving the state as the
    /// model says: untouched on a failed fetch, with `pc` advanced on any
    /// later failure, and with the rows already drawn in place when a
    /// sprite read aborts a draw.
    pub fn cycle(&mut self, mmu: &mut MMU) -> (r: Result<(), Chip8Error>)
        requires
            old(self).wf(),
            old(mmu).wf(),
        ensures
            final(self).wf(),
            final(mmu).wf(),
            final(self)@ == step_spec(old(self)@, old(mmu)@).0,
            final(mmu)@ == step_spec(old(self)@, old(mmu)@).1,
            r == step_spec(old(self)@, old(mmu)@).2,
    {
        let ghost c0 = self@;
        let ghost m0 = mmu@;
        let opcode = match mmu.read_short(self.pc as usize) {
            Ok(w) => w,
            Err(e) => {
                return Err(e);
            },
        };
        proof {
            assert(opcode == word_at(m0.mem, c0.pc as int));
        }
        self.pc = self.pc.wrapping_add(2);
        let ghost c1 = (CpuState { pc: pc_plus_2(c0.pc), ..c0 });
        proof {
            assert(self@ == c1);
        }

        let instruction = opcode >> 12;
        let x = ((opcode >> 8) & 0xF) as usize;
        let y = ((opcode >> 4) & 0xF) as usize;
        let nnn = opcode & 0xFFF;
        let nn = (opcode & 0xFF) as u8;
        let n = (opcode & 0xF) as u8;
        proof {
            assert((opcode >> 8) & 0xF < 16 && (opcode >> 4) & 0xF < 16 && (opcode & 0xF) < 16
                && (opcode & 0xFF) < 256 && (opcode & 0xFFF) <= 0xFFF) by (bit_vector);
        }

        match instruction {
            0x0 => self.handle_ins_0(nn, mmu),
            0x1 => {
                self.handle_ins_1(nnn);
                Ok(())
            },
            0x2 => self.handle_ins_2(nnn),
            0x3 => {
                self.handle_ins_3(x, nn);
                Ok(())
            },
            0x4 => {
                self.handle_ins_4(x, nn);
                Ok(())
            },
            0x5 => {
                self.handle_ins_5(x, y);
                Ok(())
            },
            0x6 => {
                self.handle_ins_6(x, nn);
                Ok(())
            },
            0x7 => {
                self.handle_ins_7(x, nn);
                Ok(())
            },
            0x8 => self.handle_ins_8(x, y, n),
            0x9 => {
                self.handle_ins_9(x, y);
                Ok(())
            },
            0xA => {
                self.handle_ins_a(nnn);
                Ok(())
            },
            0xD => {
                self.handle_ins_d(n, x, y, mmu);
                Ok(())
            },
            0xF => self.handle_ins_f(x, nn, mmu),
            _ => Err(Chip8Error::UnimplementedOpcode),
        }
    }

    /// `00E0`: clear the screen; `00EE`: pop the call stack into `pc`.
    fn handle_ins_0(&mut self, nn: u8, mmu: &mut MMU) -> (r: Result<(), Chip8Error>)
        requires
            old(self).wf(),
            old(mmu).wf(),
        ensures
            final(self).wf(),
            final(mmu).wf(),
            nn == 0xE0 ==> final(self)@ == old(self)@ && final(mmu)@ == (MemState {
                fb: Seq::new(old(mmu)@.fb.len(), |k: int| 0u8),
                dirty: true,
                ..old(mmu)@
            }) && r == Ok::<(), Chip8Error>(()),
            nn == 0xEE && old(self)@.sp == 0 ==> final(self)@ == old(self)@ && final(mmu)@ == old(
                mmu,
            )@ && r == Err::<(), Chip8Error>(Chip8Error::StackUnderflow),
            nn == 0xEE && old(self)@.sp > 0 ==> final(self)@ == (CpuState {
                pc: old(self)@.stack[old(self)@.sp - 1],
                sp: (old(self)@.sp - 1) as u16,
                ..old(self)@
            }) && final(mmu)@ == old(mmu)@ && r == Ok::<(), Chip8Error>(()),
            nn != 0xE0 && nn != 0xEE ==> final(self)@ == old(self)@ && final(mmu)@ == old(mmu)@
                && r == Err::<(), Chip8Error>(Chip8Error::UnimplementedOpcode),
    {
        match nn {
            0xE0 => {
                mmu.fb_clear();
                proof {
                    assert(mmu@.fb =~= Seq::new(old(mmu)@.fb.len(), |k: int| 0u8));
                }
                Ok(())
            },
            0xEE => {
                if self.sp == 0 {
                    return Err(Chip8Error::StackUnderflow);
                }
                self.sp = self.sp - 1;
                self.pc = self.stack[self.sp as usize];
                Ok(())
            },
            _ => Err(Chip8Error::UnimplementedOpcode),
        }
    }

    /// `1NNN`: absolute jump.
    fn handle_ins_1(&mut self, nnn: u16)
        requires
            old(self).wf(),
        ensures
            final(self).wf(),
            final(self)@ == (CpuState { pc: nnn, ..old(self)@ }),
    {
        self.pc = nnn;
    }

    /// `2NNN`: push `pc` and jump, failing when the call stack is full.
    fn handle_ins_2(&mut self, nnn: u16) -> (r: Result<(), Chip8Error>)
        requires
            old(self).wf(),
        ensures
            final(self).wf(),
            old(self)@.sp >= 16 ==> final(self)@ == old(self)@ && r == Err::<(), Chip8Error>(
                Chip8Error::StackOverflow,
            ),
            old(self)@.sp < 16 ==> final(self)@ == (CpuState {
                pc: nnn,
                sp: (old(self)@.sp + 1) as u16,
                stack: old(self)@.stack.update(old(self)@.sp as int, old(self)@.pc),
                ..old(self)@
            }) && r == Ok::<(), Chip8Error>(()),
    {
        if self.sp >= 16 {
            return Err(Chip8Error::StackOverflow);
        }
        let sp = self.sp as usize;
        self.stack[sp] = self.pc;
        self.sp = self.sp + 1;
        self.pc = nnn;
        Ok(())
    }

    /// `3XNN`: skip the next instruction when `reg[X] == NN`.
    fn handle_ins_3(&mut self, x: usize, nn: u8)
        requires
            old(self).wf(),
            x < 16,
        ensures
            final(self).wf(),
            final(self)@ == (if old(self)@.regs[x as int] == nn {
                CpuState { pc: pc_plus_2(old(self)@.pc), ..old(self)@ }
            } else {
                old(self)@
            }),
    {
        if self.registers[x] == nn {
            self.pc = self.pc.wrapping_add(2);
        }
    }

    /// `4XNN`: skip the next instruction when `reg[X] != NN`.
    fn handle_ins_4(&mut self, x: usize, nn: u8)
        requires
            old(self).wf(),
            x < 16,
        ensures
            final(self).wf(),
            final(self)@ == (if old(self)@.regs[x as int] != nn {
                CpuState { pc: pc_plus_2(old(self)@.pc), ..old(self)@ }
            } else {
                old(self)@
            }),
    {
        if self.registers[x] != nn {
            self.pc = self.pc.wrapping_add(2);
        }
    }

    /// `5XY0`: skip the next instruction when `reg[X] == reg[Y]`.
    fn handle_ins_5(&mut self, x: usize, y: usize)
        requires
            old(self).wf(),
            x < 16,
            y < 16,
        ensures
            final(self).wf(),
            final(self)@ == (if old(self)@.regs[x as int] == old(self)@.regs[y as int] {
                CpuState { pc: pc_plus_2(old(self)@.pc), ..old(self)@ }
            } else {
                old(self)@
            }),
    {
        if self.registers[x] == self.registers[y] {
            self.pc = self.pc.wrapping_add(2);
        }
    }

    /// `6XNN`: load the immediate into `reg[X]`.
    fn handle_ins_6(&mut self, x: usize, nn: u8)
        requires
            old(self).wf(),
            x < 16,
        ensures
            final(self).wf(),
            final(self)@ == (CpuState { regs: old(self)@.regs.update(x as int, nn), ..old(self)@ }),
    {
        self.registers[x] = nn;
    }

    /// `7XNN`: add the immediate to `reg[X]` with 8-bit wraparound; no flag.
    fn handle_ins_7(&mut self, x: usize, nn: u8)
        requires
            old(self).wf(),
            x < 16,
        ensures
            final(self).wf(),
            final(self)@ == (CpuState {
                regs: old(self)@.regs.update(
                    x as int,
                    vstd::wrapping::u8_specs::wrapping_add(old(self)@.regs[x as int], nn),
                ),
                ..old(self)@
            }),
    {
        let v = self.registers[x];
        self.registers[x] = v.wrapping_add(nn);
    }

    /// `8XYn`: register-to-register arithmetic and logic, with the flag
    /// semantics of `alu_regs`.
    fn handle_ins_8(&mut self, x: usize, y: usize, n: u8) -> (r: Result<(), Chip8Error>)
        requires
            old(self).wf(),
            x < 16,
            y < 16,
        ensures
            final(self).wf(),
            alu_known(n) ==> final(self)@ == (CpuState {
                regs: alu_regs(old(self)@.regs, x as int, y as int, n),
                ..old(self)@
            }) && r == Ok::<(), Chip8Error>(()),
            !alu_known(n) ==> final(self)@ == old(self)@ && r == Err::<(), Chip8Error>(
                Chip8Error::UnimplementedOpcode,
            ),
    {
        match n {
            0x0 => {
                let v = self.registers[y];
                self.registers[x] = v;
                Ok(())
            },
            0x1 => {
                let a = self.registers[x];
                let b = self.registers[y];
                self.registers[x] = a | b;
                Ok(())
            },
            0x2 => {
                let a = self.registers[x];
                let b = self.registers[y];
                self.registers[x] = a & b;
                Ok(())
            },
            0x3 => {
                let a = self.registers[x];
                let b = self.registers[y];
                self.registers[x] = a ^ b;
                Ok(())
            },
            0x4 => {
                let a = self.registers[x];
                let b = self.registers[y];
                self.registers[x] = a.wrapping_add(b);
                let carry: u8 = if (a as u16) + (b as u16) > 255 {
                    1
                } else {
                    0
                };
                self.registers[15] = carry;
                Ok(())
            },
            0x5 => {
                let flag: u8 = if self.registers[x] > self.registers[y] {
                    1
                } else {
                    0
                };
                self.registers[15] = flag;
                let a = self.registers[x];
                let b = self.registers[y];
                self.registers[x] = a.wrapping_sub(b);
                Ok(())
            },
            0x6 => {
                let a = self.registers[x];
                self.registers[15] = a & 1;
                let v = self.registers[x];
                self.registers[x] = v >> 1;
                Ok(())
            },
            0x7 => {
                let flag: u8 = if self.registers[y] > self.registers[x] {
                    1
                } else {
                    0
                };
                self.registers[15] = flag;
                let a = self.registers[x];
                let b = self.registers[y];
                self.registers[x] = b.wrapping_sub(a);
                Ok(())
            },
            0xE => {
                let a = self.registers[x];
                self.registers[15] = a >> 7;
                let v = self.registers[x];
                self.registers[x] = v << 1;
                Ok(())
            },
            _ => Err(Chip8Error::UnimplementedOpcode),
        }
    }

    /// `9XY0`: skip the next instruction when `reg[X] != reg[Y]`.
    fn handle_ins_9(&mut self, x: usize, y: usize)
        requires
            old(self).wf(),
            x < 16,
            y < 16,
        ensures
            final(self).wf(),
            final(self)@ == (if old(self)@.regs[x as int] != old(self)@.regs[y as int] {
                CpuState { pc: pc_plus_2(old(self)@.pc), ..old(self)@ }
            } else {
                old(self)@
            }),
    {
        if self.registers[x] != self.registers[y] {
            self.pc = self.pc.wrapping_add(2);
        }
    }

    /// `ANNN`: load the address register.
    fn handle_ins_a(&mut self, nnn: u16)
        requires
            old(self).wf(),
            nnn <= 0xFFF,
        ensures
            final(self).wf(),
            final(self)@ == (CpuState { i: nnn, ..old(self)@ }),
    {
        self.i = nnn;
    }

    /// `DXYN`: XOR-draw an `n`-row sprite read from memory at `i`, wrapping
    /// coordinates, collecting collisions in the flag register.  A sprite
    /// byte read out of bounds aborts the remaining rows.
    fn handle_ins_d(&mut self, n: u8, x: usize, y: usize, mmu: &mut MMU)
        requires
            old(self).wf(),
            old(mmu).wf(),
            x < 16,
            y < 16,
            n < 16,
        ensures
            final(self).wf(),
            final(mmu).wf(),
            final(self)@ == (CpuState {
                regs: draw_rows(
                    old(mmu)@.fb,
                    old(self)@.regs.update(15, 0),
                    old(mmu)@.mem,
                    old(self)@.i as int,
                    x as int,
                    y as int,
                    n as int,
                    0,
                ).1,
                ..old(self)@
            }),
            final(mmu)@ == (MemState {
                fb: draw_rows(
                    old(mmu)@.fb,
                    old(self)@.regs.update(15, 0),
                    old(mmu)@.mem,
                    old(self)@.i as int,
                    x as int,
                    y as int,
                    n as int,
                    0,
                ).0,
                dirty: old(mmu)@.dirty || (n > 0 && (old(self)@.i as int) < old(mmu)@.mem.len()),
                ..old(mmu)@
            }),
    {
        self.registers[15] = 0;
        let ghost fb0 = mmu@.fb;
        let ghost regs0 = self@.regs;
        let ghost mem = mmu@.mem;
        let ghost i0 = self@.i as int;
        let mut row: u8 = 0;
        while row < n
            invariant
                self.wf(),
                mmu.wf(),
                x < 16,
                y < 16,
                n < 16,
                row <= n,
                self@.pc == old(self)@.pc,
                self@.sp == old(self)@.sp,
                self@.i == old(self)@.i,
                self@.stack == old(self)@.stack,
                mmu@.mem == mem,
                mem == old(mmu)@.mem,
                mmu@.fb.len() == fb0.len(),
                fb0 == old(mmu)@.fb,
                regs0 == old(self)@.regs.update(15, 0),
                i0 == old(self)@.i as int,
                draw_rows(fb0, regs0, mem, i0, x as int, y as int, n as int, 0) == draw_rows(
                    mmu@.fb,
                    self@.regs,
                    mem,
                    i0,
                    x as int,
                    y as int,
                    n as int,
                    row as int,
                ),
                mmu@.dirty == (old(mmu)@.dirty || row > 0),
                row > 0 ==> i0 < mem.len(),
            decreases n - row,
        {
            let addr = (self.i + row as u16) as usize;
            let b = match mmu.read(addr) {
                Ok(v) => v,
                Err(_) => {
                    return ;
                },
            };
            let ry = self.registers[y];
            let py = ((ry as usize) + (row as usize)) % 32;
            let ghost fbr = mmu@.fb;
            let ghost regsr = self@.regs;
            let mut col: u8 = 0;
            while col < 8
                invariant
                    self.wf(),
                    mmu.wf(),
                    x < 16,
                    y < 16,
                    col <= 8,
                    py < 32,
                    self@.pc == old(self)@.pc,
                    self@.sp == old(self)@.sp,
                    self@.i == old(self)@.i,
                    self@.stack == old(self)@.stack,
                    mmu@.mem == mem,
                    mmu@.fb.len() == fbr.len(),
                    fbr.len() == fb0.len(),
                    draw_cols(fbr, regsr, b, x as int, py as int, 0) == draw_cols(
                        mmu@.fb,
                        self@.regs,
                        b,
                        x as int,
                        py as int,
                        col as int,
                    ),
                    col > 0 ==> mmu@.dirty,
                    col == 0 ==> mmu@ == (MemState { fb: fbr, ..mmu@ }) && self@.regs == regsr,
                    col == 0 ==> mmu@.dirty == (old(mmu)@.dirty || row > 0),
                decreases 8 - col,
            {
                let rx = self.registers[x];
                let px = ((rx as usize) + (col as usize)) % 64;
                let color = (b >> (7 - col)) & 1;
                proof {
                    let sh = (7 - col) as u8;
                    assert((b >> sh) & 1 <= 1) by (bit_vector);
                }
                let cur = mmu.fb_get(px, py);
                let vf = self.registers[15];
                self.registers[15] = vf | (color & cur);
                proof {
                    assert(cur ^ color <= 1) by (bit_vector)
                        requires
                            cur <= 1,
                            color <= 1,
                    ;
                }
                mmu.fb_set(px, py, cur ^ color);
                col = col + 1;
            }
            row = row + 1;
        }
    }

    /// `FX33`, `FX55`, `FX65`: binary-coded decimal, register dump, register
    /// load, each through the memory unit at the address register.
    fn handle_ins_f(&mut self, x: usize, nn: u8, mmu: &mut MMU) -> (r: Result<(), Chip8Error>)
        requires
            old(self).wf(),
            old(mmu).wf(),
            x < 16,
        ensures
            final(self).wf(),
            final(mmu).wf(),
            final(mmu)@.fb == old(mmu)@.fb,
            final(mmu)@.dirty == old(mmu)@.dirty,
            final(mmu)@.mem.len() == old(mmu)@.mem.len(),
            nn == 0x33 && old(self)@.i + 2 < old(mmu)@.mem.len() ==> final(self)@ == old(self)@
                && final(mmu)@ == (MemState {
                mem: old(mmu)@.mem.update(old(self)@.i as int, old(self)@.regs[x as int] / 100)
                    .update(old(self)@.i + 1, (old(self)@.regs[x as int] % 100) / 10)
                    .update(old(self)@.i + 2, old(self)@.regs[x as int] % 10),
                ..old(mmu)@
            }) && r == Ok::<(), Chip8Error>(()),
            nn == 0x33 && old(self)@.i + 2 >= old(mmu)@.mem.len() ==> final(self)@ == old(self)@
                && final(mmu)@ == old(mmu)@ && r == Err::<(), Chip8Error>(Chip8Error::OutOfBounds),
            nn == 0x55 && old(self)@.i < old(mmu)@.mem.len() ==> final(self)@ == old(self)@
                && final(mmu)@ == (MemState {
                mem: block_written(
                    old(mmu)@.mem,
                    old(self)@.regs.subrange(0, x + 1),
                    old(self)@.i as int,
                ),
                ..old(mmu)@
            }) && r == Ok::<(), Chip8Error>(()),
            nn == 0x55 && old(self)@.i >= old(mmu)@.mem.len() ==> final(self)@ == old(self)@
                && final(mmu)@ == old(mmu)@ && r == Err::<(), Chip8Error>(Chip8Error::OutOfBounds),
            nn == 0x65 && old(self)@.i + x < old(mmu)@.mem.len() ==> final(self)@ == (CpuState {
                regs: regs_loaded(old(self)@.regs, old(mmu)@.mem, old(self)@.i as int, x as int),
                ..old(self)@
            }) && final(mmu)@ == old(mmu)@ && r == Ok::<(), Chip8Error>(()),
            nn == 0x65 && old(self)@.i + x >= old(mmu)@.mem.len() ==> final(self)@ == old(self)@
                && final(mmu)@ == old(mmu)@ && r == Err::<(), Chip8Error>(Chip8Error::OutOfBounds),
            nn != 0x33 && nn != 0x55 && nn != 0x65 ==> final(self)@ == old(self)@ && final(mmu)@
                == old(mmu)@ && r == Err::<(), Chip8Error>(Chip8Error::UnimplementedOpcode),
    {
        match nn {
            0x33 => {
                let i = self.i as usize;
                if i + 2 >= mmu.capacity() {
                    return Err(Chip8Error::OutOfBounds);
                }
                let v = self.registers[x];
                let _ = mmu.write(i, v / 100);
                let _ = mmu.write(i + 1, (v % 100) / 10);
                let _ = mmu.write(i + 2, v % 10);
                Ok(())
            },
            0x55 => {
                let i = self.i as usize;
                if i >= mmu.capacity() {
                    return Err(Chip8Error::OutOfBounds);
                }
                let mut buf: Vec<u8> = Vec::new();
                let mut j: usize = 0;
                while j <= x
                    invariant
                        self.wf(),
                        x < 16,
                        j <= x + 1,
                        buf@.len() == j,
                        forall|k: int| 0 <= k < j ==> buf@[k] == self@.regs[k],
                    decreases x + 1 - j,
                {
                    buf.push(self.registers[j]);
                    j = j + 1;
                }
                proof {
                    assert(buf@ =~= self@.regs.subrange(0, x + 1));
                }
                let _ = mmu.write_to_mem(buf, i);
                Ok(())
            },
            0x65 => {
                let i = self.i as usize;
                let cap = mmu.capacity();
                if i + x >= cap {
                    return Err(Chip8Error::OutOfBounds);
                }
                let mut j: usize = 0;
                while j <= x
                    invariant
                        self.wf(),
                        mmu.wf(),
                        mmu@ == old(mmu)@,
                        x < 16,
                        j <= x + 1,
                        i == old(self)@.i as int,
                        i + x < mmu@.mem.len(),
                        cap == mmu@.mem.len(),
                        self@.pc == old(self)@.pc,
                        self@.sp == old(self)@.sp,
                        self@.i == old(self)@.i,
                        self@.stack == old(self)@.stack,
                        forall|k: int| 0 <= k < j ==> self@.regs[k] == mmu@.mem[i + k],
                        forall|k: int| j <= k < 16 ==> self@.regs[k] == old(self)@.regs[k],
                    decreases x + 1 - j,
                {
                    let rb = mmu.read(i + j);
                    let b = match rb {
                        Ok(v) => v,
                        Err(e) => {
                            proof {
                                assert(false);
                            }
                            return Err(e);
                        },
                    };
                    self.registers[j] = b;
                    j = j + 1;
                }
                proof {
                    assert(self@.regs =~= regs_loaded(
                        old(self)@.regs,
                        old(mmu)@.mem,
                        old(self)@.i as int,
                        x as int,
                    ));
                }
                Ok(())
            },
            _ => Err(Chip8Error::UnimplementedOpcode),
        }
    }
}

} // verus!
