//! The fetch-decode-execute engine: registers, call stack, timers, and the
//! program counter, driving the bus.
//!
//! `step_spec` gives the meaning of one cycle over the mathematical state;
//! `step` and `execute` are proved against it. The program counter is
//! advanced past the fetched word before the instruction runs, so jump and
//! call targets stand. A fetched all-zero word halts the machine (a
//! convenience for plain ROM images, not hardware behaviour). Structural
//! stack violations are fatal; unknown words execute as no-ops.
//!
//! While the machine sits suspended on the key-wait instruction, `step`
//! makes no progress, but the timers keep decaying: the pacing loop goes on
//! calling `tick_timers` across the wait.

use vstd::prelude::*;

use crate::instr::Instruction;
use crate::instr::decode;
use crate::instr::spec_decode;
use crate::instr::valid_instr;
use crate::interconnect::BusState;
use crate::interconnect::Interconnect;
use crate::interconnect::blank_fb;
use crate::interconnect::bus_wf;
use crate::interconnect::draw_rows;
use crate::interconnect::pixel_index;
use crate::interconnect::word_at;

verus! {

/// Why the machine stopped with a fatal signal.
#[derive(Clone, Copy, Debug, PartialEq, Eq, Structural)]
pub enum Fault {
    /// A subroutine call arrived with the call stack already full.
    StackOverflow,
    /// A return arrived with the call stack empty.
    StackUnderflow,
}

/// What one execution cycle asks of the pacing loop.
#[derive(Clone, Copy, Debug, PartialEq, Eq, Structural)]
pub enum ControlSignal {
    /// Keep running.
    Continue,
    /// The program ended on an all-zero word.
    Halt,
    /// A structural stack violation at the instruction fetched from `addr`.
    Fatal { fault: Fault, addr: u16 },
}

/// The mathematical contents of the whole machine.
#[verifier::ext_equal]
pub struct CpuState {
    /// The 16 general-purpose registers; register 15 doubles as the flag.
    pub regs: Seq<u8>,
    /// The 16-bit index register; not masked on assignment.
    pub index: u16,
    /// The delay timer.
    pub delay: u8,
    /// The sound timer.
    pub sound: u8,
    /// The program counter; always below 4096.
    pub pc: u16,
    /// The pushed return addresses, oldest first.
    pub stack: Seq<u16>,
    /// `Some(x)` while suspended waiting for a key destined for register `x`.
    pub waiting: Option<u8>,
    /// The bus.
    pub bus: BusState,
}

/// Well-formedness of the machine state.
pub open spec fn state_wf(s: CpuState) -> bool {
    &&& s.regs.len() == 16
    &&& s.stack.len() <= 16
    &&& (forall|i: int| 0 <= i < s.stack.len() ==> s.stack[i] < 4096)
    &&& s.pc < 4096
    &&& (s.waiting matches Some(x) ==> x < 16)
    &&& bus_wf(s.bus)
}

/// The state at power-on over a given bus: everything zero, stack empty.
pub open spec fn initial_state(bus: BusState) -> CpuState {
    CpuState {
        regs: Seq::new(16, |i: int| 0u8),
        index: 0,
        delay: 0,
        sound: 0,
        pc: 0,
        stack: Seq::empty(),
        waiting: None,
        bus,
    }
}

/// `s` with register `x` set to `v`.
pub open spec fn with_reg(s: CpuState, x: int, v: u8) -> CpuState {
    CpuState { regs: s.regs.update(x, v), ..s }
}

/// `s` with the program counter set to `pc`.
pub open spec fn with_pc(s: CpuState, pc: u16) -> CpuState {
    CpuState { pc, ..s }
}

/// `s` with the following instruction skipped when `cond` holds.
pub open spec fn skip_if(s: CpuState, cond: bool) -> CpuState {
    if cond {
        CpuState { pc: ((s.pc + 2) % 4096) as u16, ..s }
    } else {
        s
    }
}

/// The RAM address `n` bytes past `base0`, wrapping at the top of memory.
pub open spec fn ram_addr_of(base0: int, n: int) -> int {
    if base0 + n < 4096 {
        base0 + n
    } else {
        base0 + n - 4096
    }
}

/// How many bytes past `base0` address `a` lies, wrapping.
pub open spec fn ram_offset(base0: int, a: int) -> int {
    if a >= base0 {
        a - base0
    } else {
        a + 4096 - base0
    }
}

/// RAM after the first `count` registers have been stored at `base0`, the
/// slot for register `n` being `(base0 + n)` masked into memory.
pub open spec fn store_regs_spec(ram: Seq<u8>, regs: Seq<u8>, base0: int, count: int) -> Seq<u8> {
    Seq::new(
        ram.len(),
        |a: int|
            if ram_offset(base0, a) < count {
                regs[ram_offset(base0, a)]
            } else {
                ram[a]
            },
    )
}

/// The register file after its first `count` registers have been loaded from
/// memory at `base0`.
pub open spec fn load_regs_spec(regs: Seq<u8>, ram: Seq<u8>, base0: int, count: int) -> Seq<u8> {
    Seq::new(
        regs.len(),
        |n: int|
            if n < count {
                ram[ram_addr_of(base0, n)]
            } else {
                regs[n]
            },
    )
}

/// A timer after `ticks` whole tick intervals: decremented once per tick
/// while nonzero, never below zero.
pub open spec fn tick_down(t: u8, ticks: u64) -> u8 {
    if ticks >= t {
        0u8
    } else {
        (t - ticks) as u8
    }
}

/// The meaning of one decoded instruction. `s` already has the program
/// counter advanced past the word; `addr` is the address the word was
/// fetched from, reported in fatal signals; `rand` is the byte the random
/// source handed back, read only by the random instruction.
pub open spec fn exec_spec(s: CpuState, instr: Instruction, addr: u16, rand: u8) -> (
    CpuState,
    ControlSignal,
) {
    match instr {
        Instruction::Halt => (s, ControlSignal::Halt),
        Instruction::ClearScreen => (
            CpuState { bus: BusState { fb: blank_fb(), ..s.bus }, ..s },
            ControlSignal::Continue,
        ),
        Instruction::Return => if s.stack.len() == 0 {
            (s, ControlSignal::Fatal { fault: Fault::StackUnderflow, addr })
        } else {
            (
                CpuState { pc: s.stack.last(), stack: s.stack.drop_last(), ..s },
                ControlSignal::Continue,
            )
        },
        Instruction::Jump { nnn } => (with_pc(s, nnn), ControlSignal::Continue),
        Instruction::Call { nnn } => if s.stack.len() >= 16 {
            (s, ControlSignal::Fatal { fault: Fault::StackOverflow, addr })
        } else {
            (CpuState { stack: s.stack.push(s.pc), pc: nnn, ..s }, ControlSignal::Continue)
        },
        Instruction::SkipEqImm { x, kk } => (
            skip_if(s, s.regs[x as int] == kk),
            ControlSignal::Continue,
        ),
        Instruction::SkipNeImm { x, kk } => (
            skip_if(s, s.regs[x as int] != kk),
            ControlSignal::Continue,
        ),
        Instruction::SkipEqReg { x, y } => (
            skip_if(s, s.regs[x as int] == s.regs[y as int]),
            ControlSignal::Continue,
        ),
        Instruction::LoadImm { x, kk } => (with_reg(s, x as int, kk), ControlSignal::Continue),
        Instruction::AddImm { x, kk } => (
            with_reg(s, x as int, ((s.regs[x as int] + kk) % 256) as u8),
            ControlSignal::Continue,
        ),
        Instruction::Copy { x, y } => (
            with_reg(s, x as int, s.regs[y as int]),
            ControlSignal::Continue,
        ),
        Instruction::BitOr { x, y } => (
            with_reg(s, x as int, s.regs[x as int] | s.regs[y as int]),
            ControlSignal::Continue,
        ),
        Instruction::BitAnd { x, y } => (
            with_reg(s, x as int, s.regs[x as int] & s.regs[y as int]),
            ControlSignal::Continue,
        ),
        Instruction::BitXor { x, y } => (
            with_reg(s, x as int, s.regs[x as int] ^ s.regs[y as int]),
            ControlSignal::Continue,
        ),
        Instruction::AddCarry { x, y } => (
            {
                let sum = s.regs[x as int] + s.regs[y as int];
                let flag: u8 = if sum > 255 {
                    1u8
                } else {
                    0u8
                };
                with_reg(with_reg(s, x as int, (sum % 256) as u8), 15, flag)
            },
            ControlSignal::Continue,
        ),
        Instruction::SubBorrow { x, y } => (
            {
                let a = s.regs[x as int];
                let b = s.regs[y as int];
                let flag: u8 = if a >= b {
                    1u8
                } else {
                    0u8
                };
                with_reg(with_reg(s, x as int, ((a - b + 256) % 256) as u8), 15, flag)
            },
            ControlSignal::Continue,
        ),
        Instruction::ShiftRight { x, y } => (
            {
                let v = s.regs[y as int];
                with_reg(with_reg(s, x as int, v / 2), 15, v % 2)
            },
            ControlSignal::Continue,
        ),
        Instruction::SubFrom { x, y } => (
            {
                let a = s.regs[x as int];
                let b = s.regs[y as int];
                let flag: u8 = if b >= a {
                    1u8
                } else {
                    0u8
                };
                with_reg(with_reg(s, x as int, ((b - a + 256) % 256) as u8), 15, flag)
            },
            ControlSignal::Continue,
        ),
        Instruction::ShiftLeft { x, y } => (
            {
                let v = s.regs[y as int];
                with_reg(with_reg(s, x as int, ((v * 2) % 256) as u8), 15, v / 128)
            },
            ControlSignal::Continue,
        ),
        Instruction::SkipNeReg { x, y } => (
            skip_if(s, s.regs[x as int] != s.regs[y as int]),
            ControlSignal::Continue,
        ),
        Instruction::LoadIndex { nnn } => (CpuState { index: nnn, ..s }, ControlSignal::Continue),
        Instruction::JumpOffset { nnn } => (
            with_pc(s, ((s.regs[0] + nnn) % 4096) as u16),
            ControlSignal::Continue,
        ),
        Instruction::Random { x, kk } => (
            with_reg(s, x as int, rand & kk),
            ControlSignal::Continue,
        ),
        Instruction::Draw { x, y, n } => (
            {
                let d = draw_rows(
                    s.bus.fb,
                    s.bus.ram,
                    s.index as int % 4096,
                    n as int,
                    s.regs[x as int] as int % 64,
                    s.regs[y as int] as int % 32,
                );
                let flag: u8 = if d.1 {
                    1u8
                } else {
                    0u8
                };
                CpuState {
                    regs: s.regs.update(15, flag),
                    bus: BusState { fb: d.0, ..s.bus },
                    ..s
                }
            },
            ControlSignal::Continue,
        ),
        Instruction::SkipKeyPressed { x } => (
            skip_if(s, s.bus.keys[s.regs[x as int] as int % 16]),
            ControlSignal::Continue,
        ),
        Instruction::SkipKeyNotPressed { x } => (
            skip_if(s, !s.bus.keys[s.regs[x as int] as int % 16]),
            ControlSignal::Continue,
        ),
        Instruction::ReadDelay { x } => (with_reg(s, x as int, s.delay), ControlSignal::Continue),
        Instruction::WaitKey { x } => (
            CpuState { waiting: Some(x), ..s },
            ControlSignal::Continue,
        ),
        Instruction::SetDelay { x } => (
            CpuState { delay: s.regs[x as int], ..s },
            ControlSignal::Continue,
        ),
        Instruction::SetSound { x } => (
            CpuState { sound: s.regs[x as int], ..s },
            ControlSignal::Continue,
        ),
        Instruction::AddIndex { x } => (
            CpuState { index: ((s.index + s.regs[x as int]) % 0x10000) as u16, ..s },
            ControlSignal::Continue,
        ),
        Instruction::LoadGlyph { x } => (
            CpuState { index: (5 * s.regs[x as int]) as u16, ..s },
            ControlSignal::Continue,
        ),
        Instruction::StoreBcd { x } => (
            {
                let v = s.regs[x as int];
                let i = s.index as int;
                CpuState {
                    bus: BusState {
                        ram: s.bus.ram.update(i % 4096, v / 100).update(
                            (i + 1) % 4096,
                            (v % 100) / 10,
                        ).update((i + 2) % 4096, v % 10),
                        ..s.bus
                    },
                    ..s
                }
            },
            ControlSignal::Continue,
        ),
        Instruction::StoreRegs { x } => (
            CpuState {
                bus: BusState {
                    ram: store_regs_spec(s.bus.ram, s.regs, s.index as int % 4096, x as int + 1),
                    ..s.bus
                },
                ..s
            },
            ControlSignal::Continue,
        ),
        Instruction::LoadRegs { x } => (
            CpuState {
                regs: load_regs_spec(s.regs, s.bus.ram, s.index as int % 4096, x as int + 1),
                ..s
            },
            ControlSignal::Continue,
        ),
        Instruction::Unknown { .. } => (s, ControlSignal::Continue),
    }
}

/// The meaning of one whole cycle. While suspended waiting for a key the
/// machine does nothing; otherwise the word at the program counter is
/// fetched, the counter advanced past it, and the instruction executed.
pub open spec fn step_spec(s: CpuState, rand: u8) -> (CpuState, ControlSignal) {
    if s.waiting is Some {
        (s, ControlSignal::Continue)
    } else {
        let w = word_at(s.bus.ram, s.pc);
        let s1 = CpuState { pc: ((s.pc + 2) % 4096) as u16, ..s };
        exec_spec(s1, spec_decode(w), s.pc, rand)
    }
}

/// The state after a key press is reported: the key is marked down, and a
/// suspended machine resumes with the key value in the awaited register.
pub open spec fn press_key_spec(s: CpuState, key: u8) -> CpuState {
    let s1 = CpuState {
        bus: BusState { keys: s.bus.keys.update(key as int % 16, true), ..s.bus },
        ..s
    };
    match s.waiting {
        Some(x) => CpuState { regs: s1.regs.update(x as int, key), waiting: None, ..s1 },
        None => s1,
    }
}

proof fn lemma_mod_add_small(i: int, n: int)
    requires
        0 <= i,
        0 <= n < 4096,
    ensures
        (i + n) % 4096 == (i % 4096 + n) % 4096,
{
    vstd::arithmetic::div_mod::lemma_add_mod_noop(i, n, 4096);
    vstd::arithmetic::div_mod::lemma_small_mod(n as nat, 4096nat);
}

/// The processor: the register file, call stack, timers, suspension state,
/// and the bus it owns.
pub struct CPU {
    interconnect: Interconnect,
    reg_gpr: Vec<u8>,
    reg_i: u16,
    reg_dt: u8,
    reg_st: u8,
    reg_pc: u16,
    reg_sp: u8,
    stack: Vec<u16>,
    wait_reg: Option<u8>,
}

impl View for CPU {
    type V = CpuState;

    closed spec fn view(&self) -> CpuState {
        CpuState {
            regs: self.reg_gpr@,
            index: self.reg_i,
            delay: self.reg_dt,
            sound: self.reg_st,
            pc: self.reg_pc,
            stack: self.stack@.take(self.reg_sp as int),
            waiting: self.wait_reg,
            bus: self.interconnect@,
        }
    }
}

impl CPU {
    /// The backing tables have their fixed sizes: sixteen register cells and
    /// sixteen stack slots, with the stack pointer inside them.
    pub closed spec fn tables_wf(&self) -> bool {
        &&& self.reg_gpr@.len() == 16
        &&& self.stack@.len() == 16
        &&& self.reg_sp <= 16
    }

    /// The fixed table sizes hold and the state is well formed.
    pub open spec fn wf(&self) -> bool {
        &&& self.tables_wf()
        &&& state_wf(self@)
    }

    /// A powered-on machine over the given bus: registers, timers, counter
    /// and stack all zero.
    pub fn new(interconnect: Interconnect) -> (cpu: CPU)
        requires
            interconnect.wf(),
        ensures
            cpu.wf(),
            cpu@ == initial_state(interconnect@),
    {
        let cpu = CPU {
            interconnect,
            reg_gpr: vec![0u8, 0, 0, 0, 0, 0, 0, 0, 0, 0, 0, 0, 0, 0, 0, 0],
            reg_i: 0,
            reg_dt: 0,
            reg_st: 0,
            reg_pc: 0,
            reg_sp: 0,
            stack: vec![0u16, 0, 0, 0, 0, 0, 0, 0, 0, 0, 0, 0, 0, 0, 0, 0],
            wait_reg: None,
        };
        proof {
            assert(cpu@.regs =~= initial_state(cpu.interconnect@).regs);
            assert(cpu@.stack =~= Seq::<u16>::empty());
            assert(cpu@ =~= initial_state(cpu.interconnect@));
        }
        cpu
    }

    /// Points the program counter at the program load address.
    pub fn boot(&mut self)
        requires
            old(self).wf(),
        ensures
            final(self).wf(),
            final(self)@ == (CpuState { pc: 512, ..old(self)@ }),
    {
        self.reg_pc = 512;
        proof {
            assert(self@ =~= (CpuState { pc: 512, ..old(self)@ }));
        }
    }

    /// Stores registers `0..=x` to memory at the index register.
    fn store_registers(&mut self, x: u8)
        requires
            old(self).wf(),
            x < 16,
        ensures
            final(self).wf(),
            final(self)@ == (CpuState {
                bus: BusState {
                    ram: store_regs_spec(
                        old(self)@.bus.ram,
                        old(self)@.regs,
                        old(self)@.index as int % 4096,
                        x as int + 1,
                    ),
                    ..old(self)@.bus
                },
                ..old(self)@
            }),
    {
        let ghost pre = self@;
        let ghost base0 = pre.index as int % 4096;
        let mem_index = self.reg_i as usize;
        let count = x as usize + 1;
        let mut n: usize = 0;
        while n < count
            invariant
                n <= count,
                count <= 16,
                self.wf(),
                mem_index < 0x10000,
                mem_index as int % 4096 == base0,
                0 <= base0 < 4096,
                state_wf(pre),
                self@ == (CpuState {
                    bus: BusState {
                        ram: store_regs_spec(pre.bus.ram, pre.regs, base0, n as int),
                        ..pre.bus
                    },
                    ..pre
                }),
            decreases count - n,
        {
            let v = self.reg_gpr[n];
            self.interconnect.write_to_addr(mem_index + n, v);
            proof {
                lemma_mod_add_small(mem_index as int, n as int);
                let prev = store_regs_spec(pre.bus.ram, pre.regs, base0, n as int);
                let next = store_regs_spec(pre.bus.ram, pre.regs, base0, n as int + 1);
                let slot = (mem_index + n) as int % 4096;
                assert(slot == ram_addr_of(base0, n as int));
                assert(ram_offset(base0, slot) == n as int);
                assert forall|a: int| 0 <= a < 4096 implies prev.update(slot, pre.regs[n as int])[a]
                    == next[a] by {
                    if a != slot {
                        assert(ram_offset(base0, a) != n as int);
                    }
                }
                assert(self@.bus.ram =~= next);
                assert(self@ =~= (CpuState {
                    bus: BusState { ram: next, ..pre.bus },
                    ..pre
                }));
            }
            n = n + 1;
        }
    }

    /// Loads registers `0..=x` from memory at the index register.
    fn load_registers(&mut self, x: u8)
        requires
            old(self).wf(),
            x < 16,
        ensures
            final(self).wf(),
            final(self)@ == (CpuState {
                regs: load_regs_spec(
                    old(self)@.regs,
                    old(self)@.bus.ram,
                    old(self)@.index as int % 4096,
                    x as int + 1,
                ),
                ..old(self)@
            }),
    {
        let ghost pre = self@;
        let ghost base0 = pre.index as int % 4096;
        let mem_index = self.reg_i as usize;
        let count = x as usize + 1;
        let mut n: usize = 0;
        while n < count
            invariant
                n <= count,
                count <= 16,
                self.wf(),
                mem_index < 0x10000,
                mem_index as int % 4096 == base0,
                0 <= base0 < 4096,
                state_wf(pre),
                self@ == (CpuState {
                    regs: load_regs_spec(pre.regs, pre.bus.ram, base0, n as int),
                    ..pre
                }),
            decreases count - n,
        {
            let v = self.interconnect.get_from_addr(mem_index + n);
            self.reg_gpr[n] = v;
            proof {
                lemma_mod_add_small(mem_index as int, n as int);
                assert((mem_index + n) as int % 4096 == ram_addr_of(base0, n as int));
                let prev = load_regs_spec(pre.regs, pre.bus.ram, base0, n as int);
                let next = load_regs_spec(pre.regs, pre.bus.ram, base0, n as int + 1);
                assert(self@.regs =~= next);
                assert(self@ =~= (CpuState { regs: next, ..pre }));
            }
            n = n + 1;
        }
    }

    /// Executes one decoded instruction against the advanced program
    /// counter. `addr` is the address the word was fetched from; `rand` is
    /// the byte from the random source, read only by the random instruction.
    #[verifier::rlimit(100)]
    pub fn execute(&mut self, instr: Instruction, addr: u16, rand: u8) -> (sig: ControlSignal)
        requires
            old(self).wf(),
            valid_instr(instr),
        ensures
            final(self).wf(),
            final(self)@ == exec_spec(old(self)@, instr, addr, rand).0,
            sig == exec_spec(old(self)@, instr, addr, rand).1,
    {
        let ghost pre = self@;
        match instr {
            Instruction::Halt => ControlSignal::Halt,
            Instruction::ClearScreen => {
                self.interconnect.clear_display();
                proof {
                    assert(self@ =~= exec_spec(pre, instr, addr, rand).0);
                }
                ControlSignal::Continue
            },
            Instruction::Return => {
                if self.reg_sp == 0 {
                    ControlSignal::Fatal { fault: Fault::StackUnderflow, addr }
                } else {
                    self.reg_sp = self.reg_sp - 1;
                    self.reg_pc = self.stack[self.reg_sp as usize];
                    proof {
                        assert(self@.stack =~= pre.stack.drop_last());
                        assert(self@ =~= exec_spec(pre, instr, addr, rand).0);
                    }
                    ControlSignal::Continue
                }
            },
            Instruction::Jump { nnn } => {
                self.reg_pc = nnn;
                proof {
                    assert(self@ =~= exec_spec(pre, instr, addr, rand).0);
                }
                ControlSignal::Continue
            },
            Instruction::Call { nnn } => {
                if self.reg_sp >= 16 {
                    ControlSignal::Fatal { fault: Fault::StackOverflow, addr }
                } else {
                    self.stack[self.reg_sp as usize] = self.reg_pc;
                    self.reg_sp = self.reg_sp + 1;
                    self.reg_pc = nnn;
                    proof {
                        assert(self@.stack =~= pre.stack.push(pre.pc));
                        assert(self@ =~= exec_spec(pre, instr, addr, rand).0);
                    }
                    ControlSignal::Continue
                }
            },
            Instruction::SkipEqImm { x, kk } => {
                if self.reg_gpr[x as usize] == kk {
                    self.reg_pc = (self.reg_pc + 2) % 4096;
                }
                proof {
                    assert(self@ =~= exec_spec(pre, instr, addr, rand).0);
                }
                ControlSignal::Continue
            },
            Instruction::SkipNeImm { x, kk } => {
                if self.reg_gpr[x as usize] != kk {
                    self.reg_pc = (self.reg_pc + 2) % 4096;
                }
                proof {
                    assert(self@ =~= exec_spec(pre, instr, addr, rand).0);
                }
                ControlSignal::Continue
            },
            Instruction::SkipEqReg { x, y } => {
                if self.reg_gpr[x as usize] == self.reg_gpr[y as usize] {
                    self.reg_pc = (self.reg_pc + 2) % 4096;
                }
                proof {
                    assert(self@ =~= exec_spec(pre, instr, addr, rand).0);
                }
                ControlSignal::Continue
            },
            Instruction::LoadImm { x, kk } => {
                self.reg_gpr[x as usize] = kk;
                proof {
                    assert(self@ =~= exec_spec(pre, instr, addr, rand).0);
                }
                ControlSignal::Continue
            },
            Instruction::AddImm { x, kk } => {
                let a = self.reg_gpr[x as usize];
                let v = ((a as u16 + kk as u16) % 256) as u8;
                self.reg_gpr[x as usize] = v;
                proof {
                    assert(self@ =~= exec_spec(pre, instr, addr, rand).0);
                }
                ControlSignal::Continue
            },
            Instruction::Copy { x, y } => {
                self.reg_gpr[x as usize] = self.reg_gpr[y as usize];
                proof {
                    assert(self@ =~= exec_spec(pre, instr, addr, rand).0);
                }
                ControlSignal::Continue
            },
            Instruction::BitOr { x, y } => {
                let v = self.reg_gpr[x as usize] | self.reg_gpr[y as usize];
                self.reg_gpr[x as usize] = v;
                proof {
                    assert(self@ =~= exec_spec(pre, instr, addr, rand).0);
                }
                ControlSignal::Continue
            },
            Instruction::BitAnd { x, y } => {
                let v = self.reg_gpr[x as usize] & self.reg_gpr[y as usize];
                self.reg_gpr[x as usize] = v;
                proof {
                    assert(self@ =~= exec_spec(pre, instr, addr, rand).0);
                }
                ControlSignal::Continue
            },
            Instruction::BitXor { x, y } => {
                let v = self.reg_gpr[x as usize] ^ self.reg_gpr[y as usize];
                self.reg_gpr[x as usize] = v;
                proof {
                    assert(self@ =~= exec_spec(pre, instr, addr, rand).0);
                }
                ControlSignal::Continue
            },
            Instruction::AddCarry { x, y } => {
                let a = self.reg_gpr[x as usize];
                let b = self.reg_gpr[y as usize];
                let sum = a as u16 + b as u16;
                self.reg_gpr[x as usize] = (sum % 256) as u8;
                self.reg_gpr[15] = if sum > 255 {
                    1
                } else {
                    0
                };
                proof {
                    assert(self@ =~= exec_spec(pre, instr, addr, rand).0);
                }
                ControlSignal::Continue
            },
            Instruction::SubBorrow { x, y } => {
                let a = self.reg_gpr[x as usize];
                let b = self.reg_gpr[y as usize];
                self.reg_gpr[x as usize] = ((a as u16 + 256 - b as u16) % 256) as u8;
                self.reg_gpr[15] = if a >= b {
                    1
                } else {
                    0
                };
                proof {
                    assert(self@ =~= exec_spec(pre, instr, addr, rand).0);
                }
                ControlSignal::Continue
            },
            Instruction::ShiftRight { x, y } => {
                let v = self.reg_gpr[y as usize];
                self.reg_gpr[x as usize] = v / 2;
                self.reg_gpr[15] = v % 2;
                proof {
                    assert(self@ =~= exec_spec(pre, instr, addr, rand).0);
                }
                ControlSignal::Continue
            },
            Instruction::SubFrom { x, y } => {
                let a = self.reg_gpr[x as usize];
                let b = self.reg_gpr[y as usize];
                self.reg_gpr[x as usize] = ((b as u16 + 256 - a as u16) % 256) as u8;
                self.reg_gpr[15] = if b >= a {
                    1
                } else {
                    0
                };
                proof {
                    assert(self@ =~= exec_spec(pre, instr, addr, rand).0);
                }
                ControlSignal::Continue
            },
            Instruction::ShiftLeft { x, y } => {
                let v = self.reg_gpr[y as usize];
                self.reg_gpr[x as usize] = ((v as u16 * 2) % 256) as u8;
                self.reg_gpr[15] = v / 128;
                proof {
                    assert(self@ =~= exec_spec(pre, instr, addr, rand).0);
                }
                ControlSignal::Continue
            },
            Instruction::SkipNeReg { x, y } => {
                if self.reg_gpr[x as usize] != self.reg_gpr[y as usize] {
                    self.reg_pc = (self.reg_pc + 2) % 4096;
                }
                proof {
                    assert(self@ =~= exec_spec(pre, instr, addr, rand).0);
                }
                ControlSignal::Continue
            },
            Instruction::LoadIndex { nnn } => {
                self.reg_i = nnn;
                proof {
                    assert(self@ =~= exec_spec(pre, instr, addr, rand).0);
                }
                ControlSignal::Continue
            },
            Instruction::JumpOffset { nnn } => {
                self.reg_pc = (self.reg_gpr[0] as u16 + nnn) % 4096;
                proof {
                    assert(self@ =~= exec_spec(pre, instr, addr, rand).0);
                }
                ControlSignal::Continue
            },
            Instruction::Random { x, kk } => {
                self.reg_gpr[x as usize] = rand & kk;
                proof {
                    assert(self@ =~= exec_spec(pre, instr, addr, rand).0);
                }
                ControlSignal::Continue
            },
            Instruction::Draw { x, y, n } => {
                let xv = self.reg_gpr[x as usize];
                let yv = self.reg_gpr[y as usize];
                let i_addr = self.reg_i as usize;
                let coll = self.interconnect.display_bytes(n, i_addr, xv as usize, yv as usize);
                self.reg_gpr[15] = if coll {
                    1
                } else {
                    0
                };
                proof {
                    assert(self@ =~= exec_spec(pre, instr, addr, rand).0);
                }
                ControlSignal::Continue
            },
            Instruction::SkipKeyPressed { x } => {
                let kv = self.reg_gpr[x as usize];
                if self.interconnect.is_key_pressed(kv) {
                    self.reg_pc = (self.reg_pc + 2) % 4096;
                }
                proof {
                    assert(self@ =~= exec_spec(pre, instr, addr, rand).0);
                }
                ControlSignal::Continue
            },
            Instruction::SkipKeyNotPressed { x } => {
                let kv = self.reg_gpr[x as usize];
                if !self.interconnect.is_key_pressed(kv) {
                    self.reg_pc = (self.reg_pc + 2) % 4096;
                }
                proof {
                    assert(self@ =~= exec_spec(pre, instr, addr, rand).0);
                }
                ControlSignal::Continue
            },
            Instruction::ReadDelay { x } => {
                self.reg_gpr[x as usize] = self.reg_dt;
                proof {
                    assert(self@ =~= exec_spec(pre, instr, addr, rand).0);
                }
                ControlSignal::Continue
            },
            Instruction::WaitKey { x } => {
                self.wait_reg = Some(x);
                proof {
                    assert(self@ =~= exec_spec(pre, instr, addr, rand).0);
                }
                ControlSignal::Continue
            },
            Instruction::SetDelay { x } => {
                self.reg_dt = self.reg_gpr[x as usize];
                proof {
                    assert(self@ =~= exec_spec(pre, instr, addr, rand).0);
                }
                ControlSignal::Continue
            },
            Instruction::SetSound { x } => {
                self.reg_st = self.reg_gpr[x as usize];
                proof {
                    assert(self@ =~= exec_spec(pre, instr, addr, rand).0);
                }
                ControlSignal::Continue
            },
            Instruction::AddIndex { x } => {
                let v = self.reg_gpr[x as usize];
                self.reg_i = ((self.reg_i as u32 + v as u32) % 0x10000) as u16;
                proof {
                    assert(self@ =~= exec_spec(pre, instr, addr, rand).0);
                }
                ControlSignal::Continue
            },
            Instruction::LoadGlyph { x } => {
                let v = self.reg_gpr[x as usize];
                self.reg_i = 5 * v as u16;
                proof {
                    assert(self@ =~= exec_spec(pre, instr, addr, rand).0);
                }
                ControlSignal::Continue
            },
            Instruction::StoreBcd { x } => {
                let v = self.reg_gpr[x as usize];
                let i = self.reg_i as usize;
                self.interconnect.write_to_addr(i, v / 100);
                self.interconnect.write_to_addr(i + 1, (v % 100) / 10);
                self.interconnect.write_to_addr(i + 2, v % 10);
                proof {
                    assert(self@ =~= exec_spec(pre, instr, addr, rand).0);
                }
                ControlSignal::Continue
            },
            Instruction::StoreRegs { x } => {
                self.store_registers(x);
                proof {
                    assert(self@ =~= exec_spec(pre, instr, addr, rand).0);
                }
                ControlSignal::Continue
            },
            Instruction::LoadRegs { x } => {
                self.load_registers(x);
                proof {
                    assert(self@ =~= exec_spec(pre, instr, addr, rand).0);
                }
                ControlSignal::Continue
            },
            Instruction::Unknown { .. } => ControlSignal::Continue,
        }
    }

    /// Runs one cycle with the random byte supplied by the caller; the
    /// outcome is exactly `step_spec` of the prior state and that byte.
    pub fn step_with_random(&mut self, rand: u8) -> (sig: ControlSignal)
        requires
            old(self).wf(),
        ensures
            final(self).wf(),
            final(self)@ == step_spec(old(self)@, rand).0,
            sig == step_spec(old(self)@, rand).1,
    {
        if self.wait_reg.is_some() {
            return ControlSignal::Continue;
        }
        let addr = self.reg_pc;
        let word = self.interconnect.read_word(addr);
        let instr = decode(word);
        self.reg_pc = (addr + 2) % 4096;
        proof {
            assert(self@ =~= (CpuState { pc: ((old(self)@.pc + 2) % 4096) as u16, ..old(self)@ }));
        }
        self.execute(instr, addr, rand)
    }

    /// Runs one cycle, drawing the random byte from the random source when
    /// the instruction asks for one. Some byte accounts for the outcome.
    pub fn step(&mut self) -> (sig: ControlSignal)
        requires
            old(self).wf(),
        ensures
            final(self).wf(),
            exists|r: u8|
                final(self)@ == #[trigger] step_spec(old(self)@, r).0 && sig == step_spec(
                    old(self)@,
                    r,
                ).1,
    {
        let rand: u8 = if !self.wait_reg.is_some() {
            let word = self.interconnect.read_word(self.reg_pc);
            let instr = decode(word);
            match instr {
                Instruction::Random { .. } => self.interconnect.get_random_value(),
                _ => 0u8,
            }
        } else {
            0u8
        };
        let sig = self.step_with_random(rand);
        proof {
            assert(self@ == step_spec(old(self)@, rand).0 && sig == step_spec(old(self)@, rand).1);
        }
        sig
    }

    /// Decrements each nonzero timer once per elapsed tick, never below zero.
    pub fn tick_timers(&mut self, ticks: u64)
        requires
            old(self).wf(),
        ensures
            final(self).wf(),
            final(self)@ == (CpuState {
                delay: tick_down(old(self)@.delay, ticks),
                sound: tick_down(old(self)@.sound, ticks),
                ..old(self)@
            }),
    {
        if ticks >= self.reg_dt as u64 {
            self.reg_dt = 0;
        } else {
            self.reg_dt = self.reg_dt - ticks as u8;
        }
        if ticks >= self.reg_st as u64 {
            self.reg_st = 0;
        } else {
            self.reg_st = self.reg_st - ticks as u8;
        }
        proof {
            assert(self@ =~= (CpuState {
                delay: tick_down(old(self)@.delay, ticks),
                sound: tick_down(old(self)@.sound, ticks),
                ..old(self)@
            }));
        }
    }

    /// Reports a key-down transition from the input collaborator; resumes a
    /// suspended machine with the key value.
    pub fn press_key(&mut self, key: u8)
        requires
            old(self).wf(),
            key < 16,
        ensures
            final(self).wf(),
            final(self)@ == press_key_spec(old(self)@, key),
    {
        self.interconnect.set_key(key, true);
        match self.wait_reg {
            Some(x) => {
                self.reg_gpr[x as usize] = key;
                self.wait_reg = None;
            },
            None => {},
        }
        proof {
            assert(self@ =~= press_key_spec(old(self)@, key));
        }
    }

    /// Reports a key-up transition from the input collaborator.
    pub fn release_key(&mut self, key: u8)
        requires
            old(self).wf(),
            key < 16,
        ensures
            final(self).wf(),
            final(self)@ == (CpuState {
                bus: BusState {
                    keys: old(self)@.bus.keys.update(key as int % 16, false),
                    ..old(self)@.bus
                },
                ..old(self)@
            }),
    {
        self.interconnect.set_key(key, false);
        proof {
            assert(self@ =~= (CpuState {
                bus: BusState {
                    keys: old(self)@.bus.keys.update(key as int % 16, false),
                    ..old(self)@.bus
                },
                ..old(self)@
            }));
        }
    }

    /// Records an external quit request.
    pub fn request_halt(&mut self)
        requires
            old(self).wf(),
        ensures
            final(self).wf(),
            final(self)@ == (CpuState {
                bus: BusState { halt: true, ..old(self)@.bus },
                ..old(self)@
            }),
    {
        self.interconnect.set_halt(true);
        proof {
            assert(self@ =~= (CpuState {
                bus: BusState { halt: true, ..old(self)@.bus },
                ..old(self)@
            }));
        }
    }

    /// Whether an external quit request stands.
    pub fn halted(&self) -> (r: bool)
        requires
            self.wf(),
        ensures
            r == self@.bus.halt,
    {
        self.interconnect.is_halted()
    }

    /// Whether the machine is suspended waiting for a key.
    pub fn is_waiting(&self) -> (r: bool)
        requires
            self.wf(),
        ensures
            r == (self@.waiting is Some),
    {
        self.wait_reg.is_some()
    }

    /// Whether the sound timer asks for the tone to play.
    pub fn sound_on(&self) -> (r: bool)
        requires
            self.wf(),
        ensures
            r == (self@.sound > 0),
    {
        self.reg_st > 0
    }

    /// Reads general-purpose register `x`.
    pub fn reg(&self, x: u8) -> (r: u8)
        requires
            self.wf(),
            x < 16,
        ensures
            r == self@.regs[x as int],
    {
        self.reg_gpr[x as usize]
    }

    /// Reads the index register.
    pub fn index_reg(&self) -> (r: u16)
        requires
            self.wf(),
        ensures
            r == self@.index,
    {
        self.reg_i
    }

    /// Reads the program counter.
    pub fn pc(&self) -> (r: u16)
        requires
            self.wf(),
        ensures
            r == self@.pc,
    {
        self.reg_pc
    }

    /// Reads the delay timer.
    pub fn delay_timer(&self) -> (r: u8)
        requires
            self.wf(),
        ensures
            r == self@.delay,
    {
        self.reg_dt
    }

    /// Reads the sound timer.
    pub fn sound_timer(&self) -> (r: u8)
        requires
            self.wf(),
        ensures
            r == self@.sound,
    {
        self.reg_st
    }

    /// Reads the memory byte at `addr`, masked into range.
    pub fn mem_byte(&self, addr: usize) -> (r: u8)
        requires
            self.wf(),
        ensures
            r == self@.bus.ram[addr as int % 4096],
    {
        self.interconnect.get_from_addr(addr)
    }

    /// Reads the framebuffer pixel at `col`, `row`.
    pub fn pixel(&self, col: usize, row: usize) -> (r: bool)
        requires
            self.wf(),
            col < 64,
            row < 32,
        ensures
            r == self@.bus.fb[pixel_index(col as int, row as int)],
    {
        self.interconnect.pixel(col, row)
    }
}

/// Law: for every register pair, the add-with-carry instruction sets the
/// flag register to 1 exactly when the unsigned 8-bit sum overflows 255 and
/// to 0 otherwise, and the destination register — when it is not the flag
/// register itself — holds the wrapped sum.
pub proof fn lemma_add_with_carry(s: CpuState, x: u8, y: u8, addr: u16, rand: u8)
    requires
        state_wf(s),
        x < 16,
        y < 16,
    ensures
        ({
            let r = exec_spec(s, Instruction::AddCarry { x, y }, addr, rand);
            &&& r.1 == ControlSignal::Continue
            &&& r.0.regs[15] == (if s.regs[x as int] + s.regs[y as int] > 255 {
                1u8
            } else {
                0u8
            })
            &&& x != 15 ==> r.0.regs[x as int] == (s.regs[x as int] + s.regs[y as int]) % 256
        }),
{
}

/// Law: for every register pair, the subtract instruction sets the flag
/// register to 1 exactly when the minuend is at least the subtrahend before
/// the operation and to 0 otherwise, and the destination register — when it
/// is not the flag register itself — holds the wrapped difference.
pub proof fn lemma_sub_not_borrow(s: CpuState, x: u8, y: u8, addr: u16, rand: u8)
    requires
        state_wf(s),
        x < 16,
        y < 16,
    ensures
        ({
            let r = exec_spec(s, Instruction::SubBorrow { x, y }, addr, rand);
            &&& r.1 == ControlSignal::Continue
            &&& r.0.regs[15] == (if s.regs[x as int] >= s.regs[y as int] {
                1u8
            } else {
                0u8
            })
            &&& x != 15 ==> r.0.regs[x as int] == (s.regs[x as int] - s.regs[y as int] + 256)
                % 256
        }),
{
}

/// Law: storing registers `0..=x` to memory at the index register and then
/// loading `x + 1` registers from the same address reproduces the register
/// file exactly, for every `x` below 16.
pub proof fn lemma_store_load_roundtrip(s: CpuState, x: u8, addr: u16, rand: u8)
    requires
        state_wf(s),
        x < 16,
    ensures
        ({
            let stored = exec_spec(s, Instruction::StoreRegs { x }, addr, rand).0;
            let loaded = exec_spec(stored, Instruction::LoadRegs { x }, addr, rand).0;
            loaded.regs == s.regs
        }),
{
    let base0 = s.index as int % 4096;
    let ram2 = store_regs_spec(s.bus.ram, s.regs, base0, x as int + 1);
    let regs2 = load_regs_spec(s.regs, ram2, base0, x as int + 1);
    assert forall|n: int| 0 <= n < 16 implies regs2[n] == s.regs[n] by {
        if n < x as int + 1 {
            assert(0 <= ram_addr_of(base0, n) < 4096);
            assert(ram_offset(base0, ram_addr_of(base0, n)) == n);
        }
    }
    assert(regs2 =~= s.regs);
}

} // verus!
