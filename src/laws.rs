use crate::cpu::{
    dr, execute_model, execute_polls, is_imm, off9, scan_model, scan_polls, sr1, sr2, step_model,
    step_polls, word_chars, Effect, SCAN_LIMIT,
};
use crate::image::{image_origin, image_words, load_model, loaded};
use crate::vm::{
    add16, as_signed, opcode_of, read_model, sign_extend, Opcode, VmModel,
    MR_KBDR, MR_KBSR, PC_INDEX,
};
use vstd::arithmetic::power2::{lemma2_to64, pow2};
use vstd::prelude::*;

verus! {

/// Register-mode ADD stores `(a + b) mod 2^16` and register-mode AND stores
/// `a & b`, where `a` and `b` are the two source registers; the condition
/// register then says whether that result is zero, negative or positive.
pub proof fn law_add_and_register_mode(m: VmModel, key: Option<u8>)
    requires
        m.wf(),
        m.stop is None,
        m.pc() != MR_KBSR,
        opcode_of(m.mem[m.pc() as int] >> 12u16) == Some(Opcode::Add) || opcode_of(
            m.mem[m.pc() as int] >> 12u16,
        ) == Some(Opcode::And),
        !is_imm(m.mem[m.pc() as int]),
    ensures
        ({
            let i = m.mem[m.pc() as int];
            let a = m.regs[sr1(i) as int];
            let b = m.regs[sr2(i) as int];
            let res = if opcode_of(i >> 12u16) == Some(Opcode::Add) {
                ((a as int + b as int) % 65536) as u16
            } else {
                a & b
            };
            let (m2, e) = step_model(m, key);
            &&& e == Effect::Continue
            &&& m2.regs[dr(i) as int] == res
            &&& m2.mem == m.mem
            &&& m2.pc() == add16(m.pc(), 1)
            &&& (m2.cond() == 2 <==> res == 0)
            &&& (m2.cond() == 4 <==> res >= 0x8000)
            &&& (m2.cond() == 1 <==> (res != 0 && res < 0x8000))
        }),
{
    let i = m.mem[m.pc() as int];
    assert((i >> 9u16) & 7 < 8) by (bit_vector);
    assert((i >> 6u16) & 7 < 8) by (bit_vector);
    assert(i & 7 < 8) by (bit_vector);
}

/// Sign extension of a 5-bit field reads it as two's complement: 0 to 15
/// stay as they are, 16 to 31 become their negative counterparts; extending
/// the result again changes nothing.
pub proof fn law_sign_extend_imm5(imm5: u16)
    requires
        imm5 < 32,
    ensures
        sign_extend(sign_extend(imm5, 5), 5) == sign_extend(imm5, 5),
        as_signed(sign_extend(imm5, 5)) == if imm5 < 16 {
            imm5 as int
        } else {
            imm5 as int - 32
        },
{
    lemma2_to64();
    assert(pow2(5) == 32 && pow2(4) == 16);
}

/// LDI whose pointer word sits at X yields what LD yields when its effective
/// address is the word stored at X (X not being the keyboard status
/// register, whose read is not side-effect free).
pub proof fn law_ldi_is_ld_of_pointer(m: VmModel, ldi: u16, ld: u16, key: Option<u8>)
    requires
        m.wf(),
        opcode_of(ldi >> 12u16) == Some(Opcode::Ldi),
        opcode_of(ld >> 12u16) == Some(Opcode::Ld),
        dr(ldi) == dr(ld),
        add16(m.pc(), off9(ldi)) != MR_KBSR,
        add16(m.pc(), off9(ld)) == m.mem[add16(m.pc(), off9(ldi)) as int],
    ensures
        execute_model(m, ldi, key) == execute_model(m, ld, key),
        ({
            let x = add16(m.pc(), off9(ldi));
            m.mem[x as int] != MR_KBSR ==> execute_model(m, ldi, key) == (
                m.set_reg(dr(ldi) as nat, m.mem[m.mem[x as int] as int]),
                Effect::Continue,
            )
        }),
{
}

proof fn lemma_loaded_len(mem: Seq<u16>, origin: u16, words: Seq<u16>)
    requires
        mem.len() == 65536,
    ensures
        loaded(mem, origin, words).len() == 65536,
    decreases words.len(),
{
    if words.len() > 0 {
        lemma_loaded_len(mem, origin, words.drop_last());
    }
}

proof fn lemma_loaded_at(mem: Seq<u16>, origin: u16, words: Seq<u16>, a: int)
    requires
        mem.len() == 65536,
        words.len() <= 65536,
        0 <= a < 65536,
    ensures
        loaded(mem, origin, words)[a] == if (a - origin) % 65536 < words.len() {
            words[(a - origin) % 65536]
        } else {
            mem[a]
        },
    decreases words.len(),
{
    if words.len() > 0 {
        let w0 = words.drop_last();
        lemma_loaded_len(mem, origin, w0);
        lemma_loaded_at(mem, origin, w0, a);
        let p = (origin as int + words.len() - 1) % 65536;
        let d = (a - origin) % 65536;
        assert(a == p <==> d == words.len() - 1);
    }
}

/// Loading an image stores its N words at origin, origin + 1, ...,
/// origin + N - 1 (wrapping from 65535 to 0), leaves other addresses alone,
/// and sets the program counter to the origin; in particular the word at the
/// origin is the first word after the header.
pub proof fn law_load_round_trip(m: VmModel, image: Seq<u8>)
    requires
        m.wf(),
        image.len() >= 2,
        image.len() % 2 == 0,
        image_words(image).len() <= 65536,
    ensures
        load_model(m, image) is Ok,
        ({
            let m2 = load_model(m, image)->Ok_0;
            let origin = image_origin(image);
            let words = image_words(image);
            &&& m2.wf()
            &&& m2.pc() == origin
            &&& forall|i: int|
                0 <= i < words.len() ==> #[trigger] m2.mem[(origin + i) % 65536] == words[i]
            &&& forall|a: int|
                0 <= a < 65536 && (a - origin) % 65536 >= words.len() ==> #[trigger] m2.mem[a]
                    == m.mem[a]
            &&& words.len() > 0 ==> m2.mem[origin as int] == words[0]
        }),
{
    let origin = image_origin(image);
    let words = image_words(image);
    lemma_loaded_len(m.mem, origin, words);
    assert forall|i: int| 0 <= i < words.len() implies #[trigger] loaded(m.mem, origin, words)[(
    origin + i) % 65536] == words[i] by {
        lemma_loaded_at(m.mem, origin, words, (origin + i) % 65536);
        assert(((origin + i) % 65536 - origin) % 65536 == i);
    }
    assert forall|a: int|
        0 <= a < 65536 && (a - origin) % 65536 >= words.len() implies #[trigger] loaded(
        m.mem,
        origin,
        words,
    )[a] == m.mem[a] by {
        lemma_loaded_at(m.mem, origin, words, a);
    }
    if words.len() > 0 {
        assert((origin + 0) % 65536 == origin);
    }
}

/// The machine after running one step for each poll outcome in `keys`.
pub open spec fn run_model(m: VmModel, keys: Seq<Option<u8>>) -> VmModel
    decreases keys.len(),
{
    if keys.len() == 0 {
        m
    } else {
        run_model(step_model(m, keys[0]).0, keys.drop_first())
    }
}

/// Once a run has stopped, no number of further steps changes registers or
/// memory, whatever words lie at the program counter.
pub proof fn law_stopped_is_final(m: VmModel, keys: Seq<Option<u8>>)
    requires
        m.stop is Some,
    ensures
        run_model(m, keys) == m,
        step_model(m, keys.first()) == (m, Effect::Stop(m.stop->Some_0)),
    decreases keys.len(),
{
    if keys.len() > 0 {
        law_stopped_is_final(m, keys.drop_first());
    }
}

/// A read of the keyboard status register with no key pending returns 0,
/// clears the status register and keeps the data register; with a key
/// pending it consumes that one key into the data register and returns a
/// status with bit 15 set. Any other read changes nothing.
pub proof fn law_keyboard_status_read(m: VmModel, addr: u16, key: Option<u8>)
    requires
        m.wf(),
    ensures
        ({
            let (m2, v) = read_model(m, addr, key);
            &&& addr != MR_KBSR ==> m2 == m && v == m.mem[addr as int]
            &&& addr == MR_KBSR && key is None ==> v == 0 && m2.mem[MR_KBDR as int] == m.mem[MR_KBDR as int]
                && m2.mem == m.mem.update(MR_KBSR as int, 0)
            &&& addr == MR_KBSR && key is Some ==> v >> 15u16 == 1 && v == 0x8000 && m2.mem[MR_KBDR as int]
                == key->Some_0 as u16 && m2.mem == m.mem.update(MR_KBSR as int, 0x8000).update(
                MR_KBDR as int,
                key->Some_0 as u16,
            )
            &&& m2.regs == m.regs
        }),
{
    assert((0x8000u16 >> 15u16) == 1) by (bit_vector);
}

proof fn lemma_scan_ignores_key(m: VmModel, addr: u16, k1: Option<u8>, k2: Option<u8>, fuel: nat, packed: bool)
    requires
        m.wf(),
        !scan_polls(m.mem, addr, fuel),
    ensures
        scan_model(m, addr, k1, fuel, packed) == scan_model(m, addr, k2, fuel, packed),
    decreases fuel,
{
    if fuel > 0 && m.mem[addr as int] != 0 {
        lemma_scan_ignores_key(m, add16(addr, 1), k1, k2, (fuel - 1) as nat, packed);
    }
}

/// A step for which no keyboard poll is needed does not depend on the poll
/// outcome: the keyboard is polled only where a program reads its status.
pub proof fn law_no_poll_no_dependence(m: VmModel, k1: Option<u8>, k2: Option<u8>)
    requires
        m.wf(),
        !step_polls(m),
    ensures
        step_model(m, k1) == step_model(m, k2),
{
    if m.stop is None {
        let pc = m.pc();
        let m1 = m.set_reg(PC_INDEX as nat, add16(pc, 1));
        let i = m.mem[pc as int];
        assert(m1.mem == m.mem);
        assert(m1.regs[0] == m.regs[0]);
        if opcode_of(i >> 12u16) == Some(Opcode::Trap) {
            let m3 = m1.save_return(m1.pc());
            assert(m3.mem == m.mem);
            assert(m3.regs[0] == m.regs[0]);
            if !execute_polls(m1, i) {
                if scan_polls(m.mem, m.regs[0], 65536) {
                } else {
                    lemma_scan_ignores_key(m3, m3.regs[0], k1, k2, 65536, true);
                    lemma_scan_ignores_key(m3, m3.regs[0], k1, k2, 65536, false);
                }
            }
        }
    }
}

proof fn lemma_scan_keeps_regs(m: VmModel, addr: u16, key: Option<u8>, fuel: nat, packed: bool)
    requires
        m.wf(),
    ensures
        scan_model(m, addr, key, fuel, packed).0.regs == m.regs,
        scan_model(m, addr, key, fuel, packed).0.stop == m.stop,
    decreases fuel,
{
    if fuel > 0 {
        let (m1, w) = read_model(m, addr, key);
        if w != 0 {
            lemma_scan_keeps_regs(m1, add16(addr, 1), key, (fuel - 1) as nat, packed);
        }
    }
}

/// JSR and TRAP save the return address (the program counter past the
/// instruction) in R7 and leave the condition register as it was.
pub proof fn law_return_address_keeps_flags(m: VmModel, key: Option<u8>)
    requires
        m.wf(),
        m.stop is None,
        m.pc() != MR_KBSR,
        opcode_of(m.mem[m.pc() as int] >> 12u16) == Some(Opcode::Jsr) || opcode_of(
            m.mem[m.pc() as int] >> 12u16,
        ) == Some(Opcode::Trap),
    ensures
        step_model(m, key).0.regs[7] == add16(m.pc(), 1),
        step_model(m, key).0.cond() == m.cond(),
{
    let pc = m.pc();
    let i = m.mem[pc as int];
    let m1 = m.set_reg(PC_INDEX as nat, add16(pc, 1)).save_return(add16(pc, 1));
    if opcode_of(i >> 12u16) == Some(Opcode::Trap) {
        lemma_scan_keeps_regs(m1, m1.regs[0], key, SCAN_LIMIT as nat, true);
        lemma_scan_keeps_regs(m1, m1.regs[0], key, SCAN_LIMIT as nat, false);
    }
}

/// The address `j` words after `a`, wrapping from 65535 to 0.
pub open spec fn offset(a: u16, j: int) -> int {
    (a + j) % 65536
}

/// The low bytes of the `n` words from `a` on.
pub open spec fn low_bytes(mem: Seq<u16>, a: u16, n: nat) -> Seq<u8> {
    Seq::new(n, |j: int| (mem[offset(a, j)] & 0xff) as u8)
}

proof fn lemma_scan_string(m: VmModel, a: u16, n: nat, key: Option<u8>, fuel: nat)
    requires
        m.wf(),
        n < fuel,
        forall|j: int| 0 <= j <= n ==> #[trigger] offset(a, j) != MR_KBSR as int,
        forall|j: int| 0 <= j < n ==> m.mem[#[trigger] offset(a, j)] != 0,
        m.mem[offset(a, n as int)] == 0,
    ensures
        scan_model(m, a, key, fuel, false) == (m, low_bytes(m.mem, a, n)),
    decreases n,
{
    assert(offset(a, 0) == a as int);
    if n == 0 {
        assert(low_bytes(m.mem, a, n) =~= seq![]);
    } else {
        let b = add16(a, 1);
        assert forall|j: int| 0 <= j <= n - 1 implies offset(b, j) == offset(a, j + 1) by {}
        assert forall|j: int| 0 <= j <= n - 1 implies offset(b, j) != MR_KBSR as int by {
            assert(offset(b, j) == offset(a, j + 1));
        }
        assert forall|j: int| 0 <= j < n - 1 implies m.mem[offset(b, j)] != 0 by {
            assert(offset(b, j) == offset(a, j + 1));
        }
        assert(offset(b, n - 1) == offset(a, n as int));
        lemma_scan_string(m, b, (n - 1) as nat, key, (fuel - 1) as nat);
        let w = m.mem[a as int];
        assert(word_chars(w, false) + low_bytes(m.mem, b, (n - 1) as nat) =~= low_bytes(m.mem, a, n)) by {
            assert forall|j: int| 0 < j < n implies offset(b, j - 1) == offset(a, j) by {}
        }
    }
}

/// PUTS with R0 at a run of nonzero words followed by a zero word (none of
/// them the keyboard status register) writes the low byte of each nonzero
/// word, in order, and stops at the zero word without writing it; memory and
/// all registers but PC and R7 are left as they were.
pub proof fn law_puts_writes_string(m: VmModel, n: nat, key: Option<u8>)
    requires
        m.wf(),
        m.stop is None,
        m.pc() != MR_KBSR,
        m.mem[m.pc() as int] == 0xF022,
        n < SCAN_LIMIT,
        forall|j: int| 0 <= j <= n ==> #[trigger] offset(m.regs[0], j) != MR_KBSR as int,
        forall|j: int| 0 <= j < n ==> m.mem[#[trigger] offset(m.regs[0], j)] != 0,
        m.mem[offset(m.regs[0], n as int)] == 0,
    ensures
        step_model(m, key) == (
            m.set_reg(PC_INDEX as nat, add16(m.pc(), 1)).save_return(add16(m.pc(), 1)),
            Effect::Output(low_bytes(m.mem, m.regs[0], n)),
        ),
{
    let i = m.mem[m.pc() as int];
    assert(i >> 12u16 == 15 && i & 0xff == 0x22) by (bit_vector)
        requires
            i == 0xF022,
    ;
    let m1 = m.set_reg(PC_INDEX as nat, add16(m.pc(), 1)).save_return(add16(m.pc(), 1));
    assert(m1.regs[0] == m.regs[0]);
    assert(m1.mem == m.mem);
    lemma_scan_string(m1, m1.regs[0], n, key, SCAN_LIMIT as nat);
}

} // verus!
