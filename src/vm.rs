use vstd::arithmetic::power2::{lemma2_to64, lemma_pow2_strictly_increases, lemma_pow2_unfold, pow2};
use vstd::bits::lemma_u32_shl_is_mul;
use vstd::prelude::*;

verus! {

/// Number of words in memory.
pub const MEMORY_MAX: usize = 65536;

/// Conventional start address of a program.
pub const PC_START: u16 = 0x3000;

/// Number of register slots: eight general registers, the program counter
/// and the condition register.
pub const REG_COUNT: usize = 10;

/// Address of the keyboard status register.
pub const MR_KBSR: u16 = 0xFE00;

/// Address of the keyboard data register.
pub const MR_KBDR: u16 = 0xFE02;

/// Index of the program counter in the register file.
pub const PC_INDEX: usize = 8;

/// Index of the condition register in the register file.
pub const COND_INDEX: usize = 9;

#[derive(Clone, Copy, PartialEq, Eq, Structural, Debug)]
pub enum Register {
    R0,
    R1,
    R2,
    R3,
    R4,
    R5,
    R6,
    R7,
    PC,
    Cond,
    Count,
}

/// The register a numeric selector denotes, if any.
pub open spec fn register_of(v: u16) -> Option<Register> {
    if v == 0 {
        Some(Register::R0)
    } else if v == 1 {
        Some(Register::R1)
    } else if v == 2 {
        Some(Register::R2)
    } else if v == 3 {
        Some(Register::R3)
    } else if v == 4 {
        Some(Register::R4)
    } else if v == 5 {
        Some(Register::R5)
    } else if v == 6 {
        Some(Register::R6)
    } else if v == 7 {
        Some(Register::R7)
    } else if v == 8 {
        Some(Register::PC)
    } else if v == 9 {
        Some(Register::Cond)
    } else if v == 10 {
        Some(Register::Count)
    } else {
        None
    }
}

impl Register {
    /// The slot number of a register (`Count` is one past the last slot).
    pub open spec fn id(self) -> nat {
        match self {
            Register::R0 => 0,
            Register::R1 => 1,
            Register::R2 => 2,
            Register::R3 => 3,
            Register::R4 => 4,
            Register::R5 => 5,
            Register::R6 => 6,
            Register::R7 => 7,
            Register::PC => 8,
            Register::Cond => 9,
            Register::Count => 10,
        }
    }

    pub fn from_u16(v: u16) -> (r: Option<Register>)
        ensures
            r == register_of(v),
            r matches Some(reg) ==> reg.id() == v,
    {
        match v {
            0 => Some(Register::R0),
            1 => Some(Register::R1),
            2 => Some(Register::R2),
            3 => Some(Register::R3),
            4 => Some(Register::R4),
            5 => Some(Register::R5),
            6 => Some(Register::R6),
            7 => Some(Register::R7),
            8 => Some(Register::PC),
            9 => Some(Register::Cond),
            10 => Some(Register::Count),
            _ => None,
        }
    }

    /// The slot number of this register.
    pub fn index(self) -> (r: usize)
        ensures
            r == self.id(),
    {
        match self {
            Register::R0 => 0,
            Register::R1 => 1,
            Register::R2 => 2,
            Register::R3 => 3,
            Register::R4 => 4,
            Register::R5 => 5,
            Register::R6 => 6,
            Register::R7 => 7,
            Register::PC => 8,
            Register::Cond => 9,
            Register::Count => 10,
        }
    }
}

#[derive(Clone, Copy, PartialEq, Eq, Structural, Debug)]
pub enum ConditionalFlag {
    Pos,
    Zro,
    Neg,
}

impl ConditionalFlag {
    pub open spec fn spec_bits(self) -> u16 {
        match self {
            ConditionalFlag::Pos => 1,
            ConditionalFlag::Zro => 2,
            ConditionalFlag::Neg => 4,
        }
    }

    /// The value the condition register holds for this flag.
    pub fn bits(self) -> (r: u16)
        ensures
            r == self.spec_bits(),
    {
        match self {
            ConditionalFlag::Pos => 1,
            ConditionalFlag::Zro => 2,
            ConditionalFlag::Neg => 4,
        }
    }
}

/// The flag that describes a value: zero, negative (bit 15 set) or positive.
pub open spec fn flag_of(v: u16) -> ConditionalFlag {
    if v == 0 {
        ConditionalFlag::Zro
    } else if v >= 0x8000 {
        ConditionalFlag::Neg
    } else {
        ConditionalFlag::Pos
    }
}

#[derive(Clone, Copy, PartialEq, Eq, Structural, Debug)]
pub enum Opcode {
    Br,
    Add,
    Ld,
    St,
    Jsr,
    And,
    Ldr,
    Str,
    Rti,
    Not,
    Ldi,
    Sti,
    Jmp,
    Res,
    Lea,
    Trap,
}

/// The opcode a 4-bit value denotes.
pub open spec fn opcode_of(v: u16) -> Option<Opcode> {
    if v == 0 {
        Some(Opcode::Br)
    } else if v == 1 {
        Some(Opcode::Add)
    } else if v == 2 {
        Some(Opcode::Ld)
    } else if v == 3 {
        Some(Opcode::St)
    } else if v == 4 {
        Some(Opcode::Jsr)
    } else if v == 5 {
        Some(Opcode::And)
    } else if v == 6 {
        Some(Opcode::Ldr)
    } else if v == 7 {
        Some(Opcode::Str)
    } else if v == 8 {
        Some(Opcode::Rti)
    } else if v == 9 {
        Some(Opcode::Not)
    } else if v == 10 {
        Some(Opcode::Ldi)
    } else if v == 11 {
        Some(Opcode::Sti)
    } else if v == 12 {
        Some(Opcode::Jmp)
    } else if v == 13 {
        Some(Opcode::Res)
    } else if v == 14 {
        Some(Opcode::Lea)
    } else if v == 15 {
        Some(Opcode::Trap)
    } else {
        None
    }
}

impl Opcode {
    /// The 4-bit code of an opcode.
    pub open spec fn id(self) -> nat {
        match self {
            Opcode::Br => 0,
            Opcode::Add => 1,
            Opcode::Ld => 2,
            Opcode::St => 3,
            Opcode::Jsr => 4,
            Opcode::And => 5,
            Opcode::Ldr => 6,
            Opcode::Str => 7,
            Opcode::Rti => 8,
            Opcode::Not => 9,
            Opcode::Ldi => 10,
            Opcode::Sti => 11,
            Opcode::Jmp => 12,
            Opcode::Res => 13,
            Opcode::Lea => 14,
            Opcode::Trap => 15,
        }
    }

    pub fn from_u16(value: u16) -> (r: Option<Opcode>)
        ensures
            r == opcode_of(value),
            value < 16 <==> r is Some,
            r matches Some(op) ==> op.id() == value,
    {
        match value {
            0 => Some(Opcode::Br),
            1 => Some(Opcode::Add),
            2 => Some(Opcode::Ld),
            3 => Some(Opcode::St),
            4 => Some(Opcode::Jsr),
            5 => Some(Opcode::And),
            6 => Some(Opcode::Ldr),
            7 => Some(Opcode::Str),
            8 => Some(Opcode::Rti),
            9 => Some(Opcode::Not),
            10 => Some(Opcode::Ldi),
            11 => Some(Opcode::Sti),
            12 => Some(Opcode::Jmp),
            13 => Some(Opcode::Res),
            14 => Some(Opcode::Lea),
            15 => Some(Opcode::Trap),
            _ => None,
        }
    }
}

/// Why a run of the machine stopped.
#[derive(Clone, Copy, PartialEq, Eq, Structural, Debug)]
pub enum Stop {
    /// The program executed the HALT service call.
    Halted,
    /// The program executed an opcode with no defined behaviour (RTI or RES).
    UnsupportedOpcode(Opcode),
    /// The program executed a service call with an unknown vector.
    UnimplementedTrap(u16),
}

/// The abstract state of a machine: memory, register slots, and the reason
/// the run stopped once it has.
pub struct VmModel {
    pub mem: Seq<u16>,
    pub regs: Seq<u16>,
    pub stop: Option<Stop>,
}

impl VmModel {
    pub open spec fn wf(self) -> bool {
        self.mem.len() == MEMORY_MAX && self.regs.len() == REG_COUNT
    }

    pub open spec fn with_mem(self, mem: Seq<u16>) -> VmModel {
        VmModel { mem, regs: self.regs, stop: self.stop }
    }

    pub open spec fn with_regs(self, regs: Seq<u16>) -> VmModel {
        VmModel { mem: self.mem, regs, stop: self.stop }
    }

    pub open spec fn with_stop(self, stop: Stop) -> VmModel {
        VmModel { mem: self.mem, regs: self.regs, stop: Some(stop) }
    }

    /// Writing a register slot; a write to a general register (slots 0 to 7)
    /// also sets the condition register from the written value.
    pub open spec fn set_reg(self, id: nat, v: u16) -> VmModel {
        if id < 8 {
            self.with_regs(self.regs.update(id as int, v).update(COND_INDEX as int, flag_of(v).spec_bits()))
        } else {
            self.with_regs(self.regs.update(id as int, v))
        }
    }

    /// Saving a return address in R7: no flag changes.
    pub open spec fn save_return(self, pc: u16) -> VmModel {
        self.with_regs(self.regs.update(7, pc))
    }

    pub open spec fn set_mem(self, addr: u16, v: u16) -> VmModel {
        self.with_mem(self.mem.update(addr as int, v))
    }

    pub open spec fn pc(self) -> u16 {
        self.regs[PC_INDEX as int]
    }

    pub open spec fn cond(self) -> u16 {
        self.regs[COND_INDEX as int]
    }
}

/// The state of a machine that was just built: memory and general registers
/// zero, the program counter at the start address, the zero flag set.
pub open spec fn initial_model() -> VmModel {
    VmModel {
        mem: Seq::new(MEMORY_MAX as nat, |i: int| 0u16),
        regs: Seq::new(REG_COUNT as nat, |i: int| 0u16).update(PC_INDEX as int, PC_START).update(
            COND_INDEX as int,
            ConditionalFlag::Zro.spec_bits(),
        ),
        stop: None,
    }
}

/// Memory after one poll of the keyboard: with a key, the status register
/// gets bit 15 and the data register the key; without, the status register
/// is cleared and the data register kept.
pub open spec fn polled(mem: Seq<u16>, key: Option<u8>) -> Seq<u16> {
    match key {
        Some(b) => mem.update(MR_KBSR as int, 0x8000).update(MR_KBDR as int, b as u16),
        None => mem.update(MR_KBSR as int, 0),
    }
}

/// A read of memory: reading the keyboard status register first polls the
/// keyboard, whose outcome is `key`; any other read changes nothing.
pub open spec fn read_model(m: VmModel, addr: u16, key: Option<u8>) -> (VmModel, u16) {
    if addr == MR_KBSR {
        let mem = polled(m.mem, key);
        (m.with_mem(mem), mem[addr as int])
    } else {
        (m, m.mem[addr as int])
    }
}

/// `x + y` modulo 2^16.
pub open spec fn add16(x: u16, y: u16) -> u16 {
    ((x as int + y as int) % 65536) as u16
}

/// The low `n` bits of `x` read as a two's-complement number and widened to
/// 16 bits.
pub open spec fn sign_extend(x: u16, n: nat) -> u16
    recommends
        1 <= n <= 16,
{
    let v = x as int % pow2(n) as int;
    if v >= pow2((n - 1) as nat) {
        (v + 65536 - pow2(n)) as u16
    } else {
        v as u16
    }
}

/// The signed value of a 16-bit word read as two's complement.
pub open spec fn as_signed(x: u16) -> int {
    if x >= 0x8000 {
        x as int - 65536
    } else {
        x as int
    }
}

pub struct Vm {
    pub(crate) memory: Vec<u16>,
    pub(crate) registers: Vec<u16>,
    pub(crate) stop: Option<Stop>,
}

impl View for Vm {
    type V = VmModel;

    closed spec fn view(&self) -> VmModel {
        VmModel { mem: self.memory@, regs: self.registers@, stop: self.stop }
    }
}

impl Default for Vm {
    fn default() -> (r: Self)
        ensures
            r.wf(),
            r@ == initial_model(),
    {
        let mut registers: Vec<u16> = vec![0u16; REG_COUNT];
        registers.set(PC_INDEX, PC_START);
        registers.set(COND_INDEX, ConditionalFlag::Zro.bits());
        let memory: Vec<u16> = vec![0u16; MEMORY_MAX];
        let r = Vm { memory, registers, stop: None };
        assert(r@.mem =~= initial_model().mem);
        assert(r@.regs =~= initial_model().regs);
        r
    }
}

impl Vm {
    pub closed spec fn wf(&self) -> bool {
        self@.wf()
    }

    pub broadcast proof fn lemma_wf(&self)
        ensures
            #[trigger] self.wf() <==> self@.wf(),
    {
    }

    pub fn new() -> (r: Self)
        ensures
            r.wf(),
            r@ == initial_model(),
    {
        Self::default()
    }

    /// Reads the word at `addr`. Reading the keyboard status register takes
    /// `key`, the outcome of one keyboard poll: the key read, or `None` when
    /// none was pending; other reads ignore it.
    pub fn read_memory(&mut self, addr: u16, key: Option<u8>) -> (r: u16)
        requires
            old(self).wf(),
        ensures
            final(self).wf(),
            (final(self)@, r) == read_model(old(self)@, addr, key),
    {
        proof {
            self.lemma_wf();
        }
        if addr == MR_KBSR {
            match key {
                Some(b) => {
                    self.memory.set(MR_KBSR as usize, 0x8000);
                    self.memory.set(MR_KBDR as usize, b as u16);
                },
                None => {
                    self.memory.set(MR_KBSR as usize, 0);
                },
            }
        }
        let r = self.memory[addr as usize];
        proof {
            let (m, v) = read_model(old(self)@, addr, key);
            assert(self@.mem =~= m.mem);
        }
        r
    }

    pub fn write_memory(&mut self, addr: u16, value: u16)
        requires
            old(self).wf(),
        ensures
            final(self).wf(),
            final(self)@ == old(self)@.set_mem(addr, value),
    {
        proof {
            self.lemma_wf();
        }
        self.memory.set(addr as usize, value);
        proof {
            assert(self@.mem =~= old(self)@.set_mem(addr, value).mem);
        }
    }

    pub fn read_register(&self, reg: Register) -> (r: u16)
        requires
            self.wf(),
            reg != Register::Count,
        ensures
            r == self@.regs[reg.id() as int],
    {
        proof {
            self.lemma_wf();
        }
        self.registers[reg.index()]
    }

    /// Writes a register; a write to R0..R7 also sets the condition flags.
    pub fn write_register(&mut self, reg: Register, value: u16)
        requires
            old(self).wf(),
            reg != Register::Count,
        ensures
            final(self).wf(),
            final(self)@ == old(self)@.set_reg(reg.id(), value),
    {
        proof {
            self.lemma_wf();
        }
        let i = reg.index();
        self.registers.set(i, value);
        if i < PC_INDEX {
            self.update_flags(value);
        }
        proof {
            assert(self@.regs =~= old(self)@.set_reg(reg.id(), value).regs);
        }
    }

    /// Stores a return address in R7, leaving the condition register as it
    /// is.
    pub fn save_return_address(&mut self, pc: u16)
        requires
            old(self).wf(),
        ensures
            final(self).wf(),
            final(self)@ == old(self)@.save_return(pc),
    {
        proof {
            self.lemma_wf();
        }
        self.registers.set(7, pc);
        proof {
            assert(self@.regs =~= old(self)@.save_return(pc).regs);
        }
    }

    /// Sets the condition register from the sign of `value`.
    pub fn update_flags(&mut self, value: u16)
        requires
            old(self).wf(),
        ensures
            final(self).wf(),
            final(self)@ == old(self)@.with_regs(
                old(self)@.regs.update(COND_INDEX as int, flag_of(value).spec_bits()),
            ),
    {
        proof {
            self.lemma_wf();
        }
        let flag = if value == 0 {
            ConditionalFlag::Zro
        } else if (value >> 15u16) == 1 {
            ConditionalFlag::Neg
        } else {
            ConditionalFlag::Pos
        };
        proof {
            assert(value >= 0x8000 <==> (value >> 15u16) == 1) by (bit_vector);
        }
        self.registers.set(COND_INDEX, flag.bits());
        proof {
            assert(self@.regs =~= old(self)@.regs.update(COND_INDEX as int, flag_of(value).spec_bits()));
        }
    }

    /// The register that a selector field denotes.
    pub fn reg(&self, bits: u16) -> (r: Register)
        requires
            bits <= 10,
        ensures
            register_of(bits) == Some(r),
            r.id() == bits,
    {
        match Register::from_u16(bits) {
            Some(r) => r,
            None => Register::Count,
        }
    }

    /// Widens the low `bit_count` bits of `x`, read as two's complement, to 16
    /// bits.
    pub fn sign_ext(&self, x: u16, bit_count: usize) -> (r: u16)
        requires
            1 <= bit_count <= 16,
        ensures
            r == sign_extend(x, bit_count as nat),
    {
        let n = bit_count as u32;
        proof {
            lemma2_to64();
            if n < 16 {
                lemma_pow2_strictly_increases(n as nat, 16);
            }
            lemma_pow2_unfold(n as nat);
            lemma_u32_shl_is_mul(1, n);
        }
        let size: u32 = 1u32 << n;
        let v: u32 = (x as u32) % size;
        if v >= size / 2 {
            (v + 65536 - size) as u16
        } else {
            v as u16
        }
    }

    /// The word at `addr`, read without touching the keyboard.
    pub fn peek_memory(&self, addr: u16) -> (r: u16)
        requires
            self.wf(),
        ensures
            r == self@.mem[addr as int],
    {
        proof {
            self.lemma_wf();
        }
        self.memory[addr as usize]
    }

    /// Ends the run, for the given reason.
    pub fn set_stop(&mut self, reason: Stop)
        requires
            old(self).wf(),
        ensures
            final(self).wf(),
            final(self)@ == old(self)@.with_stop(reason),
    {
        self.stop = Some(reason);
    }

    /// Whether the run has stopped, and why.
    pub fn stopped(&self) -> (r: Option<Stop>)
        ensures
            r == self@.stop,
    {
        self.stop
    }
}

} // verus!
