//! The instruction-set model: a mathematical description of one fetch,
//! decode, dispatch step of the interpreter.
//!
//! `step_spec` maps a CPU state and a memory state to the exact state after
//! one step, together with the step's result.  `CPU::cycle` is proved to
//! produce precisely this state.  The laws at the end of the file are
//! consequences of the model that hold for every state.

use vstd::prelude::*;
use crate::Chip8Error;
use crate::mmu::MemState;
use crate::mmu::block_written;
use crate::mmu::word_at;
use vstd::wrapping::u16_specs;
use vstd::wrapping::u8_specs;

verus! {

/// Mathematical image of the CPU: program counter, stack pointer, address
/// register, the call stack (capacity 16) and the register file (16 8-bit
/// registers; index 15 doubles as the flag register).
pub ghost struct CpuState {
    pub pc: u16,
    pub sp: u16,
    pub i: u16,
    pub stack: Seq<u16>,
    pub regs: Seq<u8>,
}

/// Opcode class: top 4 bits of the instruction word.
pub open spec fn op_class(w: u16) -> u16 {
    w >> 12
}

/// Register index X: bits 8..12.
pub open spec fn op_x(w: u16) -> int {
    ((w >> 8) & 0xF) as int
}

/// Register index Y: bits 4..8.
pub open spec fn op_y(w: u16) -> int {
    ((w >> 4) & 0xF) as int
}

/// 4-bit immediate N: low 4 bits.
pub open spec fn op_n(w: u16) -> u8 {
    (w & 0xF) as u8
}

/// 8-bit immediate NN: low byte.
pub open spec fn op_nn(w: u16) -> u8 {
    (w & 0xFF) as u8
}

/// 12-bit immediate NNN: low 12 bits.
pub open spec fn op_nnn(w: u16) -> u16 {
    w & 0xFFF
}

/// The program counter advanced past one instruction, modulo 2^16.
pub open spec fn pc_plus_2(pc: u16) -> u16 {
    u16_specs::wrapping_add(pc, 2)
}

/// Whether `8XYn` is in the dispatch table.
pub open spec fn alu_known(n: u8) -> bool {
    n <= 7 || n == 0xE
}

/// The register file after `8XYn`, written as the two sequential register
/// assignments the instruction performs; where the flag register is written
/// first, an X of 15 reads the freshly written flag.
pub open spec fn alu_regs(regs: Seq<u8>, x: int, y: int, n: u8) -> Seq<u8> {
    if n == 0 {
        regs.update(x, regs[y])
    } else if n == 1 {
        regs.update(x, regs[x] | regs[y])
    } else if n == 2 {
        regs.update(x, regs[x] & regs[y])
    } else if n == 3 {
        regs.update(x, regs[x] ^ regs[y])
    } else if n == 4 {
        regs.update(x, u8_specs::wrapping_add(regs[x], regs[y])).update(
            15,
            if regs[x] + regs[y] > 255 { 1u8 } else { 0u8 },
        )
    } else if n == 5 {
        let r = regs.update(15, if regs[x] > regs[y] { 1u8 } else { 0u8 });
        r.update(x, u8_specs::wrapping_sub(r[x], r[y]))
    } else if n == 6 {
        let r = regs.update(15, regs[x] & 1);
        r.update(x, r[x] >> 1)
    } else if n == 7 {
        let r = regs.update(15, if regs[y] > regs[x] { 1u8 } else { 0u8 });
        r.update(x, u8_specs::wrapping_sub(r[y], r[x]))
    } else if n == 0xE {
        let r = regs.update(15, regs[x] >> 7);
        r.update(x, r[x] << 1)
    } else {
        regs
    }
}

/// Bit `col` of a sprite byte, most significant first.
pub open spec fn bit_at(b: u8, col: int) -> u8 {
    (b >> ((7 - col) as u8)) & 1
}

/// One sprite row from column `col` on: each pixel wraps horizontally, the
/// collision flag (register 15) becomes sticky-true when a set pixel is
/// turned off, and the pixel is replaced by its XOR with the sprite bit.
/// Register reads are live: an X of 15 reads the updating flag.
pub open spec fn draw_cols(
    fb: Seq<u8>,
    regs: Seq<u8>,
    b: u8,
    xi: int,
    y: int,
    col: int,
) -> (Seq<u8>, Seq<u8>)
    decreases 8 - col,
{
    if col < 0 || col >= 8 {
        (fb, regs)
    } else {
        let x = (regs[xi] + col) % 64;
        let idx = y * 64 + x;
        let color = bit_at(b, col);
        let cur = fb[idx];
        let regs2 = regs.update(15, regs[15] | (color & cur));
        let fb2 = fb.update(idx, cur ^ color);
        draw_cols(fb2, regs2, b, xi, y, col + 1)
    }
}

/// Sprite rows from `row` on.  A sprite byte read beyond the end of memory
/// aborts the remaining rows, leaving the rows already drawn in place.
pub open spec fn draw_rows(
    fb: Seq<u8>,
    regs: Seq<u8>,
    mem: Seq<u8>,
    i: int,
    xi: int,
    yi: int,
    n: int,
    row: int,
) -> (Seq<u8>, Seq<u8>)
    decreases n - row,
{
    if row < 0 || row >= n {
        (fb, regs)
    } else if i + row >= mem.len() {
        (fb, regs)
    } else {
        let y = (regs[yi] + row) % 32;
        let p = draw_cols(fb, regs, mem[i + row], xi, y, 0);
        draw_rows(p.0, p.1, mem, i, xi, yi, n, row + 1)
    }
}

/// The register file after `FX65`: registers 0 through `x` inclusive loaded
/// from memory at `i`, the rest untouched.
pub open spec fn regs_loaded(regs: Seq<u8>, mem: Seq<u8>, i: int, x: int) -> Seq<u8> {
    Seq::new(regs.len(), |j: int| if 0 <= j <= x { mem[i + j] } else { regs[j] })
}

/// One interpreter step: fetch the word at `pc` (big-endian), advance `pc`
/// by 2, decode, dispatch.  Returns the exact post-step CPU and memory
/// state and the step's result.  A failed step leaves the state unchanged,
/// except that a failure after a successful fetch keeps the advanced `pc`,
/// and an aborted sprite draw keeps the rows already drawn.
pub open spec fn step_spec(c: CpuState, m: MemState) -> (CpuState, MemState, Result<
    (),
    Chip8Error,
>) {
    if c.pc + 1 >= m.mem.len() {
        (c, m, Err(Chip8Error::OutOfBounds))
    } else {
        let w = word_at(m.mem, c.pc as int);
        let c1 = CpuState { pc: pc_plus_2(c.pc), ..c };
        let cls = op_class(w);
        let x = op_x(w);
        let y = op_y(w);
        let n = op_n(w);
        let nn = op_nn(w);
        let nnn = op_nnn(w);
        if cls == 0x0 {
            if nn == 0xE0 {
                let m2 = MemState {
                    fb: Seq::new(m.fb.len(), |k: int| 0u8),
                    dirty: true,
                    ..m
                };
                (c1, m2, Ok(()))
            } else if nn == 0xEE {
                if c1.sp == 0 {
                    (c1, m, Err(Chip8Error::StackUnderflow))
                } else {
                    let c2 = CpuState {
                        pc: c1.stack[c1.sp - 1],
                        sp: (c1.sp - 1) as u16,
                        ..c1
                    };
                    (c2, m, Ok(()))
                }
            } else {
                (c1, m, Err(Chip8Error::UnimplementedOpcode))
            }
        } else if cls == 0x1 {
            (CpuState { pc: nnn, ..c1 }, m, Ok(()))
        } else if cls == 0x2 {
            if c1.sp >= 16 {
                (c1, m, Err(Chip8Error::StackOverflow))
            } else {
                let c2 = CpuState {
                    pc: nnn,
                    sp: (c1.sp + 1) as u16,
                    stack: c1.stack.update(c1.sp as int, c1.pc),
                    ..c1
                };
                (c2, m, Ok(()))
            }
        } else if cls == 0x3 {
            let c2 = if c1.regs[x] == nn { CpuState { pc: pc_plus_2(c1.pc), ..c1 } } else { c1 };
            (c2, m, Ok(()))
        } else if cls == 0x4 {
            let c2 = if c1.regs[x] != nn { CpuState { pc: pc_plus_2(c1.pc), ..c1 } } else { c1 };
            (c2, m, Ok(()))
        } else if cls == 0x5 {
            let c2 = if c1.regs[x] == c1.regs[y] {
                CpuState { pc: pc_plus_2(c1.pc), ..c1 }
            } else {
                c1
            };
            (c2, m, Ok(()))
        } else if cls == 0x6 {
            (CpuState { regs: c1.regs.update(x, nn), ..c1 }, m, Ok(()))
        } else if cls == 0x7 {
            let c2 = CpuState {
                regs: c1.regs.update(x, u8_specs::wrapping_add(c1.regs[x], nn)),
                ..c1
            };
            (c2, m, Ok(()))
        } else if cls == 0x8 {
            if alu_known(n) {
                (CpuState { regs: alu_regs(c1.regs, x, y, n), ..c1 }, m, Ok(()))
            } else {
                (c1, m, Err(Chip8Error::UnimplementedOpcode))
            }
        } else if cls == 0x9 {
            let c2 = if c1.regs[x] != c1.regs[y] {
                CpuState { pc: pc_plus_2(c1.pc), ..c1 }
            } else {
                c1
            };
            (c2, m, Ok(()))
        } else if cls == 0xA {
            (CpuState { i: nnn, ..c1 }, m, Ok(()))
        } else if cls == 0xD {
            let p = draw_rows(m.fb, c1.regs.update(15, 0), m.mem, c1.i as int, x, y, n as int, 0);
            let c2 = CpuState { regs: p.1, ..c1 };
            let m2 = MemState {
                fb: p.0,
                dirty: m.dirty || (n > 0 && (c1.i as int) < m.mem.len()),
                ..m
            };
            (c2, m2, Ok(()))
        } else if cls == 0xF {
            if nn == 0x33 {
                if c1.i + 2 < m.mem.len() {
                    let v = c1.regs[x];
                    let m2 = MemState {
                        mem: m.mem.update(c1.i as int, v / 100).update(
                            c1.i + 1,
                            (v % 100) / 10,
                        ).update(c1.i + 2, v % 10),
                        ..m
                    };
                    (c1, m2, Ok(()))
                } else {
                    (c1, m, Err(Chip8Error::OutOfBounds))
                }
            } else if nn == 0x55 {
                if c1.i < m.mem.len() {
                    let m2 = MemState {
                        mem: block_written(m.mem, c1.regs.subrange(0, x + 1), c1.i as int),
                        ..m
                    };
                    (c1, m2, Ok(()))
                } else {
                    (c1, m, Err(Chip8Error::OutOfBounds))
                }
            } else if nn == 0x65 {
                if c1.i + x < m.mem.len() {
                    let c2 = CpuState {
                        regs: regs_loaded(c1.regs, m.mem, c1.i as int, x),
                        ..c1
                    };
                    (c2, m, Ok(()))
                } else {
                    (c1, m, Err(Chip8Error::OutOfBounds))
                }
            } else {
                (c1, m, Err(Chip8Error::UnimplementedOpcode))
            }
        } else {
            (c1, m, Err(Chip8Error::UnimplementedOpcode))
        }
    }
}

/// How instruction words decode: every field stays in its range.
pub proof fn lemma_decode_bounds(w: u16)
    ensures
        op_class(w) <= 0xF,
        0 <= op_x(w) < 16,
        0 <= op_y(w) < 16,
        op_n(w) < 16,
        op_nnn(w) <= 0xFFF,
{
    assert((w >> 12) <= 0xF && (w >> 8) & 0xF < 16 && (w >> 4) & 0xF < 16 && (w & 0xF) < 16 && (w
        & 0xFFF) <= 0xFFF) by (bit_vector);
}

/// Law: a step on `00E0` succeeds, turns every pixel off, marks the frame
/// dirty, and advances `pc` by 2.
pub proof fn lemma_clear_screen(c: CpuState, m: MemState)
    requires
        c.pc + 1 < m.mem.len(),
        word_at(m.mem, c.pc as int) == 0x00E0,
    ensures
        ({
            let s = step_spec(c, m);
            &&& s.2 == Ok::<(), Chip8Error>(())
            &&& s.1.dirty
            &&& s.1.fb.len() == m.fb.len()
            &&& forall|k: int| 0 <= k < s.1.fb.len() ==> s.1.fb[k] == 0
            &&& s.0.pc == pc_plus_2(c.pc)
        }),
{
    assert(0x00E0u16 >> 12 == 0 && 0x00E0u16 & 0xFF == 0xE0) by (bit_vector);
}

/// Law: a step on `1NNN` sets `pc` to exactly `NNN`, touching nothing else.
pub proof fn lemma_jump(c: CpuState, m: MemState)
    requires
        c.pc + 1 < m.mem.len(),
        op_class(word_at(m.mem, c.pc as int)) == 1,
    ensures
        ({
            let s = step_spec(c, m);
            &&& s.2 == Ok::<(), Chip8Error>(())
            &&& s.0.pc == op_nnn(word_at(m.mem, c.pc as int))
            &&& s.0.regs == c.regs
            &&& s.0.sp == c.sp
            &&& s.0.stack == c.stack
            &&& s.0.i == c.i
            &&& s.1 == m
        }),
{
}

/// Law: a call (`2NNN`) followed by a return (`00EE`) leaves `pc` at the
/// address that followed the call instruction, with the stack pointer and
/// the memory as before.
pub proof fn lemma_call_then_return(c: CpuState, m: MemState)
    requires
        c.stack.len() == 16,
        c.sp < 16,
        c.pc + 1 < m.mem.len(),
        op_class(word_at(m.mem, c.pc as int)) == 2,
        op_nnn(word_at(m.mem, c.pc as int)) + 1 < m.mem.len(),
        word_at(m.mem, op_nnn(word_at(m.mem, c.pc as int)) as int) == 0x00EE,
    ensures
        ({
            let s1 = step_spec(c, m);
            let s2 = step_spec(s1.0, s1.1);
            &&& s1.2 == Ok::<(), Chip8Error>(())
            &&& s2.2 == Ok::<(), Chip8Error>(())
            &&& s2.0.pc == pc_plus_2(c.pc)
            &&& s2.0.sp == c.sp
            &&& s2.1 == m
        }),
{
    assert(0x00EEu16 >> 12 == 0 && 0x00EEu16 & 0xFF == 0xEE) by (bit_vector);
}

/// Law: `7XNN` stores the 8-bit wraparound sum into `reg[X]` and, for an X
/// other than the flag register, leaves the flag register untouched.
pub proof fn lemma_add_immediate_wraps(c: CpuState, m: MemState)
    requires
        c.regs.len() == 16,
        c.pc + 1 < m.mem.len(),
        op_class(word_at(m.mem, c.pc as int)) == 7,
    ensures
        ({
            let s = step_spec(c, m);
            let w = word_at(m.mem, c.pc as int);
            let x = op_x(w);
            &&& s.2 == Ok::<(), Chip8Error>(())
            &&& s.0.regs == c.regs.update(x, u8_specs::wrapping_add(c.regs[x], op_nn(w)))
            &&& (x != 15 ==> s.0.regs[15] == c.regs[15])
        }),
{
    lemma_decode_bounds(word_at(m.mem, c.pc as int));
}

/// Law: `8XY4` leaves the flag register 1 exactly when `reg[X] + reg[Y]`
/// exceeds 255, else 0, and stores the 8-bit wrapped sum into `reg[X]`.
pub proof fn lemma_add_with_carry(c: CpuState, m: MemState)
    requires
        c.regs.len() == 16,
        c.pc + 1 < m.mem.len(),
        op_class(word_at(m.mem, c.pc as int)) == 8,
        op_n(word_at(m.mem, c.pc as int)) == 4,
    ensures
        ({
            let s = step_spec(c, m);
            let w = word_at(m.mem, c.pc as int);
            let x = op_x(w);
            let y = op_y(w);
            &&& s.2 == Ok::<(), Chip8Error>(())
            &&& s.0.regs[15] == (if c.regs[x] + c.regs[y] > 255 { 1u8 } else { 0u8 })
            &&& (x != 15 ==> s.0.regs[x] == u8_specs::wrapping_add(c.regs[x], c.regs[y]))
        }),
{
    lemma_decode_bounds(word_at(m.mem, c.pc as int));
}

/// Law: `8XY6` and `8XYE` capture the pre-shift bit (low, respectively
/// high) into the flag register, then shift `reg[X]`.  An X of 15 is left
/// out: there the shift target and the flag register coincide, and the
/// captured bit is itself shifted afterwards.
pub proof fn lemma_shift_captures_bit(c: CpuState, m: MemState)
    requires
        c.regs.len() == 16,
        c.pc + 1 < m.mem.len(),
        op_class(word_at(m.mem, c.pc as int)) == 8,
        op_n(word_at(m.mem, c.pc as int)) == 6 || op_n(word_at(m.mem, c.pc as int)) == 0xE,
        op_x(word_at(m.mem, c.pc as int)) != 15,
    ensures
        ({
            let s = step_spec(c, m);
            let w = word_at(m.mem, c.pc as int);
            let x = op_x(w);
            &&& s.2 == Ok::<(), Chip8Error>(())
            &&& (op_n(w) == 6 ==> s.0.regs[15] == c.regs[x] & 1 && s.0.regs[x] == c.regs[x] >> 1)
            &&& (op_n(w) == 0xE ==> s.0.regs[15] == c.regs[x] >> 7 && s.0.regs[x] == c.regs[x]
                << 1)
        }),
{
    lemma_decode_bounds(word_at(m.mem, c.pc as int));
}

/// A sprite row all of whose remaining bits are clear draws nothing: the
/// frame and the registers come out as they went in.
proof fn lemma_draw_cols_inert(fb: Seq<u8>, regs: Seq<u8>, b: u8, xi: int, y: int, col: int)
    requires
        0 <= col <= 8,
        regs.len() == 16,
        0 <= xi < 16,
        0 <= y < 32,
        fb.len() == 2048,
        forall|cc: int| col <= cc < 8 ==> bit_at(b, cc) == 0,
    ensures
        draw_cols(fb, regs, b, xi, y, col).0 == fb,
        draw_cols(fb, regs, b, xi, y, col).1 == regs,
    decreases 8 - col,
{
    if col < 8 {
        let x = (regs[xi] + col) % 64;
        let idx = y * 64 + x;
        let cur = fb[idx];
        let color = bit_at(b, col);
        let vf = regs[15];
        assert(cur ^ 0 == cur && (0 & cur) == 0 && (vf | 0) == vf) by (bit_vector);
        let fb2 = fb.update(idx, cur ^ color);
        let regs2 = regs.update(15, vf | (color & cur));
        assert(fb2 =~= fb);
        assert(regs2 =~= regs);
        lemma_draw_cols_inert(fb2, regs2, b, xi, y, col + 1);
    }
}

/// Law: drawing a one-row sprite whose only set bit is the leftmost onto a
/// pixel that is already on turns that pixel off (XOR compositing) and sets
/// the collision flag.  X and Y indices of 15 are left out: there the
/// coordinate register is the collision flag itself.
pub proof fn lemma_draw_collision(fb: Seq<u8>, regs: Seq<u8>, mem: Seq<u8>, i: int, xi: int, yi: int)
    requires
        regs.len() == 16,
        0 <= xi < 15,
        0 <= yi < 15,
        fb.len() == 2048,
        forall|k: int| 0 <= k < fb.len() ==> fb[k] <= 1,
        0 <= i < mem.len(),
        mem[i] == 0x80,
        fb[((regs[yi] as int) % 32) * 64 + ((regs[xi] as int) % 64)] == 1,
    ensures
        ({
            let p = draw_rows(fb, regs.update(15, 0), mem, i, xi, yi, 1, 0);
            let idx = ((regs[yi] as int) % 32) * 64 + ((regs[xi] as int) % 64);
            &&& p.0[idx] == 0
            &&& p.1[15] == 1
        }),
{
    let regs0 = regs.update(15, 0);
    let y = ((regs0[yi] as int) + 0) % 32;
    let x = ((regs0[xi] as int) + 0) % 64;
    let idx = y * 64 + x;
    assert((0x80u8 >> 7) & 1 == 1 && (0x80u8 >> 6) & 1 == 0 && (0x80u8 >> 5) & 1 == 0 && (0x80u8
        >> 4) & 1 == 0 && (0x80u8 >> 3) & 1 == 0 && (0x80u8 >> 2) & 1 == 0 && (0x80u8 >> 1) & 1
        == 0 && (0x80u8 >> 0) & 1 == 0) by (bit_vector);
    assert(bit_at(0x80, 0) == 1);
    assert forall|cc: int| 1 <= cc < 8 implies bit_at(0x80, cc) == 0 by {
        if cc == 1 {
            assert(bit_at(0x80, 1) == 0);
        } else if cc == 2 {
            assert(bit_at(0x80, 2) == 0);
        } else if cc == 3 {
            assert(bit_at(0x80, 3) == 0);
        } else if cc == 4 {
            assert(bit_at(0x80, 4) == 0);
        } else if cc == 5 {
            assert(bit_at(0x80, 5) == 0);
        } else if cc == 6 {
            assert(bit_at(0x80, 6) == 0);
        } else {
            assert(bit_at(0x80, 7) == 0);
        }
    }
    let cur = fb[idx];
    assert(cur == 1);
    assert((1u8 & 1) == 1 && (0u8 | 1) == 1 && (1u8 ^ 1) == 0) by (bit_vector);
    let fb1 = fb.update(idx, 0u8);
    let regs1 = regs0.update(15, 1u8);
    assert(draw_cols(fb, regs0, 0x80, xi, y, 0) == draw_cols(fb1, regs1, 0x80, xi, y, 1));
    lemma_draw_cols_inert(fb1, regs1, 0x80, xi, y, 1);
    assert(draw_cols(fb, regs0, 0x80, xi, y, 0) == (fb1, regs1));
    let p1 = draw_cols(fb, regs0, mem[i], xi, y, 0);
    assert(draw_rows(p1.0, p1.1, mem, i, xi, yi, 1, 1) == p1);
    assert(draw_rows(fb, regs0, mem, i, xi, yi, 1, 0) == p1);
    assert(fb1[idx] == 0);
    assert(regs1[15] == 1);
}

/// Law: `FX55` followed by `FX65` at the same address register reproduces
/// registers 0 through X inclusive, and leaves the rest alone.  Over the
/// memory and register images that the two instructions' semantics use.
pub proof fn lemma_store_load_round_trip(regs: Seq<u8>, mem: Seq<u8>, i: int, x: int)
    requires
        regs.len() == 16,
        0 <= x < 16,
        0 <= i,
        i + x < mem.len(),
    ensures
        regs_loaded(regs, block_written(mem, regs.subrange(0, x + 1), i), i, x) == regs,
{
    assert(regs_loaded(regs, block_written(mem, regs.subrange(0, x + 1), i), i, x) =~= regs);
}

} // verus!

