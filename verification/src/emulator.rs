//! The assembled machine: a CPU and a memory unit, loaded at start-up with
//! a program image at `0x200` and the hexadecimal font table at `0x50`,
//! stepped by an external driver while a run flag is set.

use vstd::prelude::*;
use crate::Chip8Error;
use crate::cpu::CPU;
use crate::isa::CpuState;
use crate::isa::step_spec;
use crate::mmu::MMU;
use crate::mmu::MemState;
use crate::mmu::block_written;
use crate::rom::ROM;

verus! {

/// The font table: 16 glyphs for the hexadecimal digits, 5 bytes each.
pub open spec fn font_seq() -> Seq<u8> {
    seq![
        0xF0u8, 0x90, 0x90, 0x90, 0xF0,
        0x20, 0x60, 0x20, 0x20, 0x70,
        0xF0, 0x10, 0xF0, 0x80, 0xF0,
        0xF0, 0x10, 0xF0, 0x10, 0xF0,
        0x90, 0x90, 0xF0, 0x10, 0x10,
        0xF0, 0x80, 0xF0, 0x10, 0xF0,
        0xF0, 0x80, 0xF0, 0x90, 0xF0,
        0xF0, 0x10, 0x20, 0x40, 0x40,
        0xF0, 0x90, 0xF0, 0x90, 0xF0,
        0xF0, 0x90, 0xF0, 0x10, 0xF0,
        0xF0, 0x90, 0xF0, 0x90, 0x90,
        0xE0, 0x90, 0xE0, 0x90, 0xE0,
        0xF0, 0x80, 0x80, 0x80, 0xF0,
        0xE0, 0x90, 0x90, 0x90, 0xE0,
        0xF0, 0x80, 0xF0, 0x80, 0xF0,
        0xF0, 0x80, 0xF0, 0x80, 0x80,
    ]
}

/// The font table as bytes ready to be loaded into memory.
fn font_data() -> (v: Vec<u8>)
    ensures
        v@ == font_seq(),
{
    let mut v: Vec<u8> = Vec::new();
    v.push(0xF0); v.push(0x90); v.push(0x90); v.push(0x90); v.push(0xF0);
    v.push(0x20); v.push(0x60); v.push(0x20); v.push(0x20); v.push(0x70);
    v.push(0xF0); v.push(0x10); v.push(0xF0); v.push(0x80); v.push(0xF0);
    v.push(0xF0); v.push(0x10); v.push(0xF0); v.push(0x10); v.push(0xF0);
    v.push(0x90); v.push(0x90); v.push(0xF0); v.push(0x10); v.push(0x10);
    v.push(0xF0); v.push(0x80); v.push(0xF0); v.push(0x10); v.push(0xF0);
    v.push(0xF0); v.push(0x80); v.push(0xF0); v.push(0x90); v.push(0xF0);
    v.push(0xF0); v.push(0x10); v.push(0x20); v.push(0x40); v.push(0x40);
    v.push(0xF0); v.push(0x90); v.push(0xF0); v.push(0x90); v.push(0xF0);
    v.push(0xF0); v.push(0x90); v.push(0xF0); v.push(0x10); v.push(0xF0);
    v.push(0xF0); v.push(0x90); v.push(0xF0); v.push(0x90); v.push(0x90);
    v.push(0xE0); v.push(0x90); v.push(0xE0); v.push(0x90); v.push(0xE0);
    v.push(0xF0); v.push(0x80); v.push(0x80); v.push(0x80); v.push(0xF0);
    v.push(0xE0); v.push(0x90); v.push(0x90); v.push(0x90); v.push(0xE0);
    v.push(0xF0); v.push(0x80); v.push(0xF0); v.push(0x80); v.push(0xF0);
    v.push(0xF0); v.push(0x80); v.push(0xF0); v.push(0x80); v.push(0x80);
    proof {
        assert(v@ =~= font_seq());
    }
    v
}

/// Mathematical image of the whole machine.
pub ghost struct EmuState {
    pub cpu: CpuState,
    pub mem: MemState,
    pub running: bool,
}

pub struct Emulator {
    mmu: MMU,
    cpu: CPU,
    running: bool,
}

impl View for Emulator {
    type V = EmuState;

    closed spec fn view(&self) -> EmuState {
        EmuState { cpu: self.cpu@, mem: self.mmu@, running: self.running }
    }
}

impl Emulator {
    pub closed spec fn wf(&self) -> bool {
        &&& self.cpu.wf()
        &&& self.mmu.wf()
    }

    /// A machine with 4096 bytes of memory, the image of `rom` loaded at
    /// `0x200` (truncated at the end of memory if oversized), the font
    /// table at `0x50`, and the CPU about to fetch at `0x200`.
    pub fn new(rom: &ROM) -> (e: Emulator)
        ensures
            e.wf(),
            !e@.running,
            e@.cpu == (CpuState {
                pc: 0x200,
                sp: 0,
                i: 0,
                stack: Seq::new(16, |j: int| 0u16),
                regs: Seq::new(16, |j: int| 0u8),
            }),
            e@.mem.mem == block_written(
                block_written(Seq::new(4096, |k: int| 0u8), rom@.data, 0x200),
                font_seq(),
                0x50,
            ),
            e@.mem.fb.len() == 2048,
            forall|k: int| 0 <= k < e@.mem.fb.len() ==> e@.mem.fb[k] == 0,
            !e@.mem.dirty,
    {
        let mut mmu = MMU::new(4096);
        let cpu = CPU::new(0x200);
        proof {
            assert(mmu@.mem =~= Seq::new(4096, |k: int| 0u8));
        }
        let _ = mmu.write_to_mem(rom.get_data(), 0x200);
        let _ = mmu.write_to_mem(font_data(), 0x50);
        Emulator { mmu, cpu, running: false }
    }

    /// Lets `cycle` step the CPU.
    pub fn start(&mut self)
        requires
            old(self).wf(),
        ensures
            final(self).wf(),
            final(self)@ == (EmuState { running: true, ..old(self)@ }),
    {
        self.running = true;
    }

    /// Keeps `cycle` from stepping the CPU.
    pub fn stop(&mut self)
        requires
            old(self).wf(),
        ensures
            final(self).wf(),
            final(self)@ == (EmuState { running: false, ..old(self)@ }),
    {
        self.running = false;
    }

    /// One CPU step when the machine runs, a no-op otherwise.  The result
    /// of a step is the driver's to act on: the default on an error is to
    /// halt.
    pub fn cycle(&mut self) -> (r: Result<(), Chip8Error>)
        requires
            old(self).wf(),
        ensures
            final(self).wf(),
            final(self)@.running == old(self)@.running,
            old(self)@.running ==> final(self)@.cpu == step_spec(old(self)@.cpu, old(self)@.mem).0
                && final(self)@.mem == step_spec(old(self)@.cpu, old(self)@.mem).1 && r
                == step_spec(old(self)@.cpu, old(self)@.mem).2,
            !old(self)@.running ==> final(self)@ == old(self)@ && r == Ok::<(), Chip8Error>(()),
    {
        if self.running {
            self.cpu.cycle(&mut self.mmu)
        } else {
            Ok(())
        }
    }

    /// A copy of the frame, row-major, one byte per pixel.
    pub fn get_fb_data(&self) -> (r: Vec<u8>)
        requires
            self.wf(),
        ensures
            r@ == self@.mem.fb,
    {
        self.mmu.fb_get_data()
    }

    /// Whether the frame changed since the driver last consumed it.
    pub fn fb_needs_refresh(&self) -> (r: bool)
        requires
            self.wf(),
        ensures
            r == self@.mem.dirty,
    {
        self.mmu.fb_needs_refresh()
    }
}

} // verus!
