use crate::vm::{
    add16, opcode_of, read_model, sign_extend, Opcode, Register, Stop, Vm, VmModel, MR_KBSR,
    PC_INDEX,
};
use vstd::prelude::*;

verus! {

/// What the surroundings must do after a step.
#[derive(Debug, PartialEq, Eq)]
pub enum Action {
    /// Nothing: go on with the next step.
    Continue,
    /// Write these characters, one byte each, and flush.
    Output(Vec<u8>),
    /// Block for one input byte and hand it to `Vm::receive_key`; with
    /// `echo`, prompt for it first and echo it.
    ReadKey { echo: bool },
    /// The run is over.
    Stop(Stop),
}

/// The abstract value of an `Action`.
pub enum Effect {
    Continue,
    Output(Seq<u8>),
    ReadKey { echo: bool },
    Stop(Stop),
}

impl View for Action {
    type V = Effect;

    open spec fn view(&self) -> Effect {
        match self {
            Action::Continue => Effect::Continue,
            Action::Output(v) => Effect::Output(v@),
            Action::ReadKey { echo } => Effect::ReadKey { echo: *echo },
            Action::Stop(s) => Effect::Stop(*s),
        }
    }
}

/// Service-call vectors.
pub const TRAP_GETC: u16 = 0x20;
pub const TRAP_OUT: u16 = 0x21;
pub const TRAP_PUTS: u16 = 0x22;
pub const TRAP_IN: u16 = 0x23;
pub const TRAP_PUTSP: u16 = 0x24;
pub const TRAP_HALT: u16 = 0x25;

/// Number of words a string output scans at most: one pass over memory.
pub const SCAN_LIMIT: u32 = 65536;

pub open spec fn dr(i: u16) -> u16 {
    (i >> 9u16) & 7
}

pub open spec fn sr1(i: u16) -> u16 {
    (i >> 6u16) & 7
}

pub open spec fn sr2(i: u16) -> u16 {
    i & 7
}

pub open spec fn off9(i: u16) -> u16 {
    sign_extend(i & 0x1ff, 9)
}

pub open spec fn off6(i: u16) -> u16 {
    sign_extend(i & 0x3f, 6)
}

pub open spec fn off11(i: u16) -> u16 {
    sign_extend(i & 0x7ff, 11)
}

pub open spec fn imm5(i: u16) -> u16 {
    sign_extend(i & 0x1f, 5)
}

pub open spec fn is_imm(i: u16) -> bool {
    (i >> 5u16) & 1 == 1
}

/// The characters one word of a string stands for: its low byte; packed,
/// also its high byte when that is not zero.
pub open spec fn word_chars(w: u16, packed: bool) -> Seq<u8> {
    if packed && (w >> 8u16) != 0 {
        seq![(w & 0xff) as u8, (w >> 8u16) as u8]
    } else {
        seq![(w & 0xff) as u8]
    }
}

/// Reading a zero-terminated string from `addr` on, at most `fuel` words:
/// the machine after the reads, and the characters read.
pub open spec fn scan_model(m: VmModel, addr: u16, key: Option<u8>, fuel: nat, packed: bool) -> (
    VmModel,
    Seq<u8>,
)
    decreases fuel,
{
    if fuel == 0 {
        (m, seq![])
    } else {
        let (m1, w) = read_model(m, addr, key);
        if w == 0 {
            (m1, seq![])
        } else {
            let (m2, rest) = scan_model(m1, add16(addr, 1), key, (fuel - 1) as nat, packed);
            (m2, word_chars(w, packed) + rest)
        }
    }
}

/// Whether that string read reaches the keyboard status register.
pub open spec fn scan_polls(mem: Seq<u16>, addr: u16, fuel: nat) -> bool
    decreases fuel,
{
    if fuel == 0 {
        false
    } else if addr == MR_KBSR {
        true
    } else if mem[addr as int] == 0 {
        false
    } else {
        scan_polls(mem, add16(addr, 1), (fuel - 1) as nat)
    }
}

/// A service call, once R7 holds the return address.
pub open spec fn trap_model(m: VmModel, vector: u16, key: Option<u8>) -> (VmModel, Effect) {
    if vector == TRAP_GETC {
        (m, Effect::ReadKey { echo: false })
    } else if vector == TRAP_OUT {
        (m, Effect::Output(seq![(m.regs[0] & 0xff) as u8]))
    } else if vector == TRAP_PUTS || vector == TRAP_PUTSP {
        let (m1, out) = scan_model(m, m.regs[0], key, SCAN_LIMIT as nat, vector == TRAP_PUTSP);
        (m1, Effect::Output(out))
    } else if vector == TRAP_IN {
        (m, Effect::ReadKey { echo: true })
    } else if vector == TRAP_HALT {
        (m.with_stop(Stop::Halted), Effect::Stop(Stop::Halted))
    } else {
        (m.with_stop(Stop::UnimplementedTrap(vector)), Effect::Stop(Stop::UnimplementedTrap(vector)))
    }
}

/// Executing instruction `i` once the program counter has moved past it.
pub open spec fn execute_model(m: VmModel, i: u16, key: Option<u8>) -> (VmModel, Effect) {
    let pc = m.pc();
    match opcode_of(i >> 12u16) {
        Some(Opcode::Br) => if m.cond() & ((i >> 9u16) & 7) != 0 {
            (m.set_reg(PC_INDEX as nat, add16(pc, off9(i))), Effect::Continue)
        } else {
            (m, Effect::Continue)
        },
        Some(Opcode::Add) => {
            let b = if is_imm(i) { imm5(i) } else { m.regs[sr2(i) as int] };
            (m.set_reg(dr(i) as nat, add16(m.regs[sr1(i) as int], b)), Effect::Continue)
        },
        Some(Opcode::And) => {
            let b = if is_imm(i) { imm5(i) } else { m.regs[sr2(i) as int] };
            (m.set_reg(dr(i) as nat, m.regs[sr1(i) as int] & b), Effect::Continue)
        },
        Some(Opcode::Not) => (m.set_reg(dr(i) as nat, !m.regs[sr1(i) as int]), Effect::Continue),
        Some(Opcode::Ld) => {
            let (m1, v) = read_model(m, add16(pc, off9(i)), key);
            (m1.set_reg(dr(i) as nat, v), Effect::Continue)
        },
        Some(Opcode::Ldi) => {
            let (m1, x) = read_model(m, add16(pc, off9(i)), key);
            let (m2, v) = read_model(m1, x, key);
            (m2.set_reg(dr(i) as nat, v), Effect::Continue)
        },
        Some(Opcode::Ldr) => {
            let (m1, v) = read_model(m, add16(m.regs[sr1(i) as int], off6(i)), key);
            (m1.set_reg(dr(i) as nat, v), Effect::Continue)
        },
        Some(Opcode::St) => (m.set_mem(add16(pc, off9(i)), m.regs[dr(i) as int]), Effect::Continue),
        Some(Opcode::Sti) => {
            let (m1, x) = read_model(m, add16(pc, off9(i)), key);
            (m1.set_mem(x, m1.regs[dr(i) as int]), Effect::Continue)
        },
        Some(Opcode::Str) => (
            m.set_mem(add16(m.regs[sr1(i) as int], off6(i)), m.regs[dr(i) as int]),
            Effect::Continue,
        ),
        Some(Opcode::Jmp) => (m.set_reg(PC_INDEX as nat, m.regs[sr1(i) as int]), Effect::Continue),
        Some(Opcode::Jsr) => {
            let m1 = m.save_return(pc);
            if (i >> 11u16) & 1 == 0 {
                (m1.set_reg(PC_INDEX as nat, m1.regs[sr1(i) as int]), Effect::Continue)
            } else {
                (m1.set_reg(PC_INDEX as nat, add16(pc, off11(i))), Effect::Continue)
            }
        },
        Some(Opcode::Lea) => (m.set_reg(dr(i) as nat, add16(pc, off9(i))), Effect::Continue),
        Some(Opcode::Rti) => (
            m.with_stop(Stop::UnsupportedOpcode(Opcode::Rti)),
            Effect::Stop(Stop::UnsupportedOpcode(Opcode::Rti)),
        ),
        Some(Opcode::Res) => (
            m.with_stop(Stop::UnsupportedOpcode(Opcode::Res)),
            Effect::Stop(Stop::UnsupportedOpcode(Opcode::Res)),
        ),
        Some(Opcode::Trap) => trap_model(m.save_return(pc), i & 0xff, key),
        None => (m, Effect::Continue),
    }
}

/// One step of the machine: a stopped machine stays as it is; otherwise the
/// word at the program counter is fetched, the program counter moves past it,
/// and the word is executed. `key` is the outcome of a keyboard poll, used
/// where the step reads the keyboard status register.
pub open spec fn step_model(m: VmModel, key: Option<u8>) -> (VmModel, Effect) {
    match m.stop {
        Some(s) => (m, Effect::Stop(s)),
        None => {
            let pc = m.pc();
            let (m1, i) = read_model(m, pc, key);
            execute_model(m1.set_reg(PC_INDEX as nat, add16(pc, 1)), i, key)
        },
    }
}

/// Whether executing instruction `i` (the program counter past it) reads
/// the keyboard status register.
pub open spec fn execute_polls(m: VmModel, i: u16) -> bool {
    let pc = m.pc();
    match opcode_of(i >> 12u16) {
        Some(Opcode::Ld) => add16(pc, off9(i)) == MR_KBSR,
        Some(Opcode::Ldr) => add16(m.regs[sr1(i) as int], off6(i)) == MR_KBSR,
        Some(Opcode::Ldi) => {
            let x = add16(pc, off9(i));
            x == MR_KBSR || m.mem[x as int] == MR_KBSR
        },
        Some(Opcode::Sti) => add16(pc, off9(i)) == MR_KBSR,
        Some(Opcode::Trap) => {
            let v = i & 0xff;
            (v == TRAP_PUTS || v == TRAP_PUTSP) && scan_polls(m.mem, m.regs[0], SCAN_LIMIT as nat)
        },
        _ => false,
    }
}

/// Whether the next step reads the keyboard status register, and so needs a
/// keyboard poll.
pub open spec fn step_polls(m: VmModel) -> bool {
    match m.stop {
        Some(_) => false,
        None => {
            let pc = m.pc();
            pc == MR_KBSR || execute_polls(m.set_reg(PC_INDEX as nat, add16(pc, 1)), m.mem[pc as int])
        },
    }
}

proof fn lemma_fields(i: u16)
    ensures
        dr(i) < 8,
        sr1(i) < 8,
        sr2(i) < 8,
        i >> 12u16 < 16,
{
    assert((i >> 9u16) & 7 < 8) by (bit_vector);
    assert((i >> 6u16) & 7 < 8) by (bit_vector);
    assert(i & 7 < 8) by (bit_vector);
    assert(i >> 12u16 < 16) by (bit_vector);
}

impl Vm {
    /// Reads the string that starts at `start`, one character per word or,
    /// `packed`, two; it ends before the first zero word, or after one pass
    /// over memory.
    fn scan_string(&mut self, start: u16, key: Option<u8>, packed: bool) -> (out: Vec<u8>)
        requires
            old(self).wf(),
        ensures
            final(self).wf(),
            (final(self)@, out@) == scan_model(old(self)@, start, key, SCAN_LIMIT as nat, packed),
    {
        let ghost whole = scan_model(old(self)@, start, key, SCAN_LIMIT as nat, packed);
        let mut out: Vec<u8> = Vec::new();
        let mut addr: u16 = start;
        let mut n: u32 = 0;
        let mut done = false;
        proof {
            assert(out@ + scan_model(self@, addr, key, SCAN_LIMIT as nat, packed).1 =~= scan_model(self@, addr, key, SCAN_LIMIT as nat, packed).1);
        }
        while !done && n < SCAN_LIMIT
            invariant
                self.wf(),
                n <= SCAN_LIMIT,
                done ==> whole == (self@, out@),
                !done ==> whole == ({
                    let (mf, rest) = scan_model(self@, addr, key, (SCAN_LIMIT - n) as nat, packed);
                    (mf, out@ + rest)
                }),
            decreases SCAN_LIMIT - n,
        {
            let ghost before = self@;
            let w = self.read_memory(addr, key);
            if w == 0 {
                proof {
                    assert(scan_model(before, addr, key, (SCAN_LIMIT - n) as nat, packed) == (self@, Seq::<u8>::empty()));
                    assert(out@ + seq![] =~= out@);
                }
                done = true;
            } else {
                let ghost out0 = out@;
                out.push((w & 0xff) as u8);
                if packed && (w >> 8) != 0 {
                    out.push((w >> 8) as u8);
                }
                proof {
                    let (m2, rest) = scan_model(self@, add16(addr, 1), key, (SCAN_LIMIT - n - 1) as nat, packed);
                    assert(out@ =~= out0 + word_chars(w, packed));
                    assert(out0 + (word_chars(w, packed) + rest) =~= out@ + rest);
                }
                addr = addr.wrapping_add(1);
            }
            n = n + 1;
        }
        proof {
            assert(out@ + seq![] =~= out@);
        }
        out
    }

    /// Whether a string read from `start` reaches the keyboard status
    /// register.
    fn scan_reaches_status(&self, start: u16) -> (r: bool)
        requires
            self.wf(),
        ensures
            r == scan_polls(self@.mem, start, SCAN_LIMIT as nat),
    {
        let mut addr: u16 = start;
        let mut n: u32 = 0;
        while n < SCAN_LIMIT
            invariant
                self.wf(),
                n <= SCAN_LIMIT,
                scan_polls(self@.mem, start, SCAN_LIMIT as nat) == scan_polls(
                    self@.mem,
                    addr,
                    (SCAN_LIMIT - n) as nat,
                ),
            decreases SCAN_LIMIT - n,
        {
            if addr == MR_KBSR {
                return true;
            }
            if self.peek_memory(addr) == 0 {
                return false;
            }
            addr = addr.wrapping_add(1);
            n = n + 1;
        }
        false
    }

    fn execute_trap(&mut self, instr: u16, key: Option<u8>) -> (a: Action)
        requires
            old(self).wf(),
            opcode_of(instr >> 12u16) == Some(Opcode::Trap),
        ensures
            final(self).wf(),
            (final(self)@, a@) == execute_model(old(self)@, instr, key),
    {
        let pc = self.read_register(Register::PC);
        self.save_return_address(pc);
        let vector = instr & 0xff;
        if vector == TRAP_GETC {
            Action::ReadKey { echo: false }
        } else if vector == TRAP_OUT {
            let r0 = self.read_register(Register::R0);
            let mut out: Vec<u8> = Vec::new();
            out.push((r0 & 0xff) as u8);
            proof {
                assert(out@ =~= seq![(r0 & 0xff) as u8]);
            }
            Action::Output(out)
        } else if vector == TRAP_PUTS || vector == TRAP_PUTSP {
            let start = self.read_register(Register::R0);
            let out = self.scan_string(start, key, vector == TRAP_PUTSP);
            Action::Output(out)
        } else if vector == TRAP_IN {
            Action::ReadKey { echo: true }
        } else if vector == TRAP_HALT {
            self.set_stop(Stop::Halted);
            Action::Stop(Stop::Halted)
        } else {
            self.set_stop(Stop::UnimplementedTrap(vector));
            Action::Stop(Stop::UnimplementedTrap(vector))
        }
    }

    /// Executes instruction `instr`, the program counter already past it.
    pub fn execute(&mut self, instr: u16, key: Option<u8>) -> (a: Action)
        requires
            old(self).wf(),
        ensures
            final(self).wf(),
            (final(self)@, a@) == execute_model(old(self)@, instr, key),
    {
        proof {
            lemma_fields(instr);
        }
        match Opcode::from_u16(instr >> 12) {
            Some(Opcode::Br) => {
                let pc_offset = self.sign_ext(instr & 0x1ff, 9);
                let cond = self.read_register(Register::Cond);
                if cond & ((instr >> 9) & 0x7) != 0 {
                    let pc = self.read_register(Register::PC);
                    self.write_register(Register::PC, pc.wrapping_add(pc_offset));
                }
                Action::Continue
            },
            Some(Opcode::Add) => {
                let dst = self.reg((instr >> 9) & 0x7);
                let src1 = self.reg((instr >> 6) & 0x7);
                let b = if (instr >> 5) & 0x1 == 1 {
                    self.sign_ext(instr & 0x1f, 5)
                } else {
                    let src2 = self.reg(instr & 0x7);
                    self.read_register(src2)
                };
                let a = self.read_register(src1);
                self.write_register(dst, a.wrapping_add(b));
                Action::Continue
            },
            Some(Opcode::And) => {
                let dst = self.reg((instr >> 9) & 0x7);
                let src1 = self.reg((instr >> 6) & 0x7);
                let b = if (instr >> 5) & 0x1 == 1 {
                    self.sign_ext(instr & 0x1f, 5)
                } else {
                    let src2 = self.reg(instr & 0x7);
                    self.read_register(src2)
                };
                let a = self.read_register(src1);
                self.write_register(dst, a & b);
                Action::Continue
            },
            Some(Opcode::Not) => {
                let dst = self.reg((instr >> 9) & 0x7);
                let src = self.reg((instr >> 6) & 0x7);
                let v = !self.read_register(src);
                self.write_register(dst, v);
                Action::Continue
            },
            Some(Opcode::Ld) => {
                let dst = self.reg((instr >> 9) & 0x7);
                let pc_offset = self.sign_ext(instr & 0x1ff, 9);
                let pc = self.read_register(Register::PC);
                let v = self.read_memory(pc.wrapping_add(pc_offset), key);
                self.write_register(dst, v);
                Action::Continue
            },
            Some(Opcode::Ldi) => {
                let dst = self.reg((instr >> 9) & 0x7);
                let pc_offset = self.sign_ext(instr & 0x1ff, 9);
                let pc = self.read_register(Register::PC);
                let final_addr = self.read_memory(pc.wrapping_add(pc_offset), key);
                let v = self.read_memory(final_addr, key);
                self.write_register(dst, v);
                Action::Continue
            },
            Some(Opcode::Ldr) => {
                let dst = self.reg((instr >> 9) & 0x7);
                let base = self.reg((instr >> 6) & 0x7);
                let offset = self.sign_ext(instr & 0x3f, 6);
                let b = self.read_register(base);
                let v = self.read_memory(b.wrapping_add(offset), key);
                self.write_register(dst, v);
                Action::Continue
            },
            Some(Opcode::St) => {
                let src = self.reg((instr >> 9) & 0x7);
                let pc_offset = self.sign_ext(instr & 0x1ff, 9);
                let pc = self.read_register(Register::PC);
                let v = self.read_register(src);
                self.write_memory(pc.wrapping_add(pc_offset), v);
                Action::Continue
            },
            Some(Opcode::Sti) => {
                let src = self.reg((instr >> 9) & 0x7);
                let pc_offset = self.sign_ext(instr & 0x1ff, 9);
                let pc = self.read_register(Register::PC);
                let final_addr = self.read_memory(pc.wrapping_add(pc_offset), key);
                let v = self.read_register(src);
                self.write_memory(final_addr, v);
                Action::Continue
            },
            Some(Opcode::Str) => {
                let src = self.reg((instr >> 9) & 0x7);
                let base = self.reg((instr >> 6) & 0x7);
                let offset = self.sign_ext(instr & 0x3f, 6);
                let b = self.read_register(base);
                let v = self.read_register(src);
                self.write_memory(b.wrapping_add(offset), v);
                Action::Continue
            },
            Some(Opcode::Jmp) => {
                let base = self.reg((instr >> 6) & 0x7);
                let v = self.read_register(base);
                self.write_register(Register::PC, v);
                Action::Continue
            },
            Some(Opcode::Jsr) => {
                let pc = self.read_register(Register::PC);
                self.save_return_address(pc);
                if (instr >> 11) & 0x1 == 0 {
                    let base = self.reg((instr >> 6) & 0x7);
                    let v = self.read_register(base);
                    self.write_register(Register::PC, v);
                } else {
                    let pc_offset = self.sign_ext(instr & 0x7ff, 11);
                    self.write_register(Register::PC, pc.wrapping_add(pc_offset));
                }
                Action::Continue
            },
            Some(Opcode::Lea) => {
                let dst = self.reg((instr >> 9) & 0x7);
                let pc_offset = self.sign_ext(instr & 0x1ff, 9);
                let pc = self.read_register(Register::PC);
                self.write_register(dst, pc.wrapping_add(pc_offset));
                Action::Continue
            },
            Some(Opcode::Rti) => {
                self.set_stop(Stop::UnsupportedOpcode(Opcode::Rti));
                Action::Stop(Stop::UnsupportedOpcode(Opcode::Rti))
            },
            Some(Opcode::Res) => {
                self.set_stop(Stop::UnsupportedOpcode(Opcode::Res));
                Action::Stop(Stop::UnsupportedOpcode(Opcode::Res))
            },
            Some(Opcode::Trap) => self.execute_trap(instr, key),
            None => Action::Continue,
        }
    }

    /// Runs one step: fetch the word at the program counter, move the
    /// program counter past it, execute it. A stopped machine is left as it
    /// is and reports why it stopped. `key` is the outcome of one keyboard
    /// poll; it is read only where `polls_keyboard` says so.
    pub fn step(&mut self, key: Option<u8>) -> (a: Action)
        requires
            old(self).wf(),
        ensures
            final(self).wf(),
            (final(self)@, a@) == step_model(old(self)@, key),
    {
        if let Some(s) = self.stopped() {
            return Action::Stop(s);
        }
        let pc = self.read_register(Register::PC);
        let instr = self.read_memory(pc, key);
        self.write_register(Register::PC, pc.wrapping_add(1));
        self.execute(instr, key)
    }

    /// Whether the next step reads the keyboard status register, so that the
    /// keyboard must be polled for it.
    pub fn polls_keyboard(&self) -> (r: bool)
        requires
            self.wf(),
        ensures
            r == step_polls(self@),
    {
        if self.stopped().is_some() {
            return false;
        }
        let pc = self.read_register(Register::PC);
        if pc == MR_KBSR {
            return true;
        }
        let instr = self.peek_memory(pc);
        let next = pc.wrapping_add(1);
        let ghost m = self@.set_reg(PC_INDEX as nat, add16(pc, 1));
        proof {
            self.lemma_wf();
            lemma_fields(instr);
            assert(m.pc() == next);
            assert(m.mem == self@.mem);
            assert(m.regs[0] == self@.regs[0]);
            assert(forall|j: int| 0 <= j < 8 ==> m.regs[j] == self@.regs[j]);
            assert(step_polls(self@) == execute_polls(m, instr));
        }
        match Opcode::from_u16(instr >> 12) {
            Some(Opcode::Ld) | Some(Opcode::Sti) => {
                let pc_offset = self.sign_ext(instr & 0x1ff, 9);
                next.wrapping_add(pc_offset) == MR_KBSR
            },
            Some(Opcode::Ldr) => {
                let base = self.reg((instr >> 6) & 0x7);
                let offset = self.sign_ext(instr & 0x3f, 6);
                self.read_register(base).wrapping_add(offset) == MR_KBSR
            },
            Some(Opcode::Ldi) => {
                let pc_offset = self.sign_ext(instr & 0x1ff, 9);
                let x = next.wrapping_add(pc_offset);
                x == MR_KBSR || self.peek_memory(x) == MR_KBSR
            },
            Some(Opcode::Trap) => {
                let vector = instr & 0xff;
                if vector == TRAP_PUTS || vector == TRAP_PUTSP {
                    let start = self.read_register(Register::R0);
                    self.scan_reaches_status(start)
                } else {
                    false
                }
            },
            _ => false,
        }
    }

    /// Hands a byte read from the keyboard to a GETC or IN service call: R0
    /// gets it, zero-extended, and the flags follow.
    pub fn receive_key(&mut self, byte: u8)
        requires
            old(self).wf(),
        ensures
            final(self).wf(),
            final(self)@ == old(self)@.set_reg(0, byte as u16),
    {
        self.write_register(Register::R0, byte as u16);
    }
}

} // verus!
