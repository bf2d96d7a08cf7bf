//! The Hack CPU: an A register, a D register, a program counter, a 32K data
//! memory and a 32K instruction memory, driven by a fetch-decode-execute
//! cycle. `execute` only stages writes against the committed state; `tick`
//! commits every staged write at once, so the next fetch sees all of them
//! atomically.

use crate::alu::{alu, alu_out, AluFlags};
use crate::gates::{bit16, get_bit};
use crate::memory::{Counter16, Register16, Rom32K};
use crate::sequential::Ram32K;
use crate::text::{bin_val, is_bin16, lines_of, parse_bin16, split_lines, trim_seq, trim_str};
use vstd::prelude::*;

verus! {

/// The full CPU state: the staged (`_in`) and committed (`_out`) value of
/// every sequential element.
#[verifier::ext_equal]
pub ghost struct CpuState {
    pub a_in: u16,
    pub a_out: u16,
    pub d_in: u16,
    pub d_out: u16,
    pub pc_in: u16,
    pub pc_out: u16,
    pub data_in: Seq<u16>,
    pub data_out: Seq<u16>,
    pub rom_in: Seq<u16>,
    pub rom_out: Seq<u16>,
}

/// A 16-bit value incremented with wrap-around.
pub open spec fn wrap_inc(w: u16) -> u16 {
    ((w + 1) % 0x10000) as u16
}

/// The ALU control word held in bits 11 down to 6 of a C-instruction.
pub open spec fn flags_of(inst: u16) -> AluFlags {
    AluFlags {
        zx: bit16(inst, 11),
        nx: bit16(inst, 10),
        zy: bit16(inst, 9),
        ny: bit16(inst, 8),
        f: bit16(inst, 7),
        no: bit16(inst, 6),
    }
}

/// Whether the jump field of `inst` fires on an ALU result that is positive
/// (`pos`), zero (`zr`) or negative (`ng`). Exactly one of the three holds,
/// so the three jump bits select any of the eight Hack jump predicates.
pub open spec fn jump_taken(inst: u16, pos: bool, zr: bool, ng: bool) -> bool {
    (bit16(inst, 2) && ng) || (bit16(inst, 1) && zr) || (bit16(inst, 0) && pos)
}

/// `execute` touches the data memory only for a C-instruction that reads M
/// (bit 12) or writes M (bit 3); the committed A register is the address and
/// must then be in range.
pub open spec fn cpu_exec_ok(s: CpuState, inst: u16) -> bool {
    bit16(inst, 15) && (bit16(inst, 12) || bit16(inst, 3)) ==> s.a_out < 32768
}

/// What one `execute` call stages, all against the committed state `s`. An
/// A-instruction stages its low 15 bits into A; a C-instruction runs the ALU
/// on D and A-or-M and stages the result into the destinations named by bits
/// 5, 4 and 3. The memory write addresses the committed A value, also when A
/// itself is written in the same instruction. A taken jump stages the
/// committed A value into the program counter; otherwise the counter advances.
pub open spec fn cpu_exec(s: CpuState, inst: u16) -> CpuState {
    if !bit16(inst, 15) {
        CpuState { a_in: inst, pc_in: wrap_inc(s.pc_out), ..s }
    } else {
        let y = if bit16(inst, 12) {
            s.data_out[s.a_out as int]
        } else {
            s.a_out
        };
        let out = alu_out(s.d_out, y, flags_of(inst));
        let zr = (out == 0);
        let ng = bit16(out, 15);
        let pos = !zr && !ng;
        let jump = jump_taken(inst, pos, zr, ng);
        CpuState {
            a_in: if bit16(inst, 5) {
                out
            } else {
                s.a_in
            },
            d_in: if bit16(inst, 4) {
                out
            } else {
                s.d_in
            },
            data_in: if bit16(inst, 3) {
                s.data_in.update(s.a_out as int, out)
            } else {
                s.data_in
            },
            pc_in: if jump {
                s.a_out
            } else {
                wrap_inc(s.pc_out)
            },
            ..s
        }
    }
}

/// What one `tick` call commits: every staged value becomes observable. The
/// instruction memory has its own commit and is not clocked here.
pub open spec fn cpu_commit(s: CpuState) -> CpuState {
    CpuState {
        a_out: s.a_in,
        d_out: s.d_in,
        pc_out: s.pc_in,
        data_out: s.data_in,
        ..s
    }
}

/// The instruction word the next cycle executes.
pub open spec fn cpu_fetch(s: CpuState) -> u16 {
    s.rom_out[s.pc_out as int]
}

/// The all-ones word is not executed: the assembler appends it as a halt
/// sentinel, and a clock cycle that fetches it leaves the state unchanged.
pub open spec fn cpu_halted(s: CpuState) -> bool {
    s.pc_out < 32768 && cpu_fetch(s) == 0xFFFFu16
}

/// A clock cycle is possible when the program counter addresses the
/// instruction memory and the fetched instruction either halts or stays in
/// range of the data memory.
pub open spec fn cpu_can_clock(s: CpuState) -> bool {
    s.pc_out < 32768 && (cpu_fetch(s) == 0xFFFFu16 || cpu_exec_ok(s, cpu_fetch(s)))
}

/// One clock cycle: fetch, execute against the committed state, then commit
/// everything at once.
pub open spec fn cpu_clock(s: CpuState) -> CpuState {
    if cpu_halted(s) {
        s
    } else {
        cpu_commit(cpu_exec(s, cpu_fetch(s)))
    }
}

/// Up to `n` clock cycles, stopping early at the halt sentinel or at a state
/// the processor cannot step from.
pub open spec fn cpu_run(s: CpuState, n: nat) -> CpuState
    decreases n,
{
    if n == 0 || !cpu_can_clock(s) || cpu_halted(s) {
        s
    } else {
        cpu_run(cpu_clock(s), (n - 1) as nat)
    }
}

pub struct Cpu {
    pub a: Register16,
    pub d: Register16,
    pub pc: Counter16,
    pub data: Ram32K,
    pub rom: Rom32K,
}

impl View for Cpu {
    type V = CpuState;

    open spec fn view(&self) -> CpuState {
        CpuState {
            a_in: self.a.staged(),
            a_out: self.a.value(),
            d_in: self.d.staged(),
            d_out: self.d.value(),
            pc_in: self.pc.staged(),
            pc_out: self.pc.value(),
            data_in: self.data.staged(),
            data_out: self.data.committed(),
            rom_in: self.rom.staged(),
            rom_out: self.rom.committed(),
        }
    }
}

impl Cpu {
    pub open spec fn wf(&self) -> bool {
        self.data.wf() && self.rom.wf()
    }

    pub fn new() -> (r: Self)
        ensures
            r.wf(),
            r@ == (CpuState {
                a_in: 0u16,
                a_out: 0u16,
                d_in: 0u16,
                d_out: 0u16,
                pc_in: 0u16,
                pc_out: 0u16,
                data_in: Seq::new(32768, |i: int| 0u16),
                data_out: Seq::new(32768, |i: int| 0u16),
                rom_in: Seq::new(32768, |i: int| 0u16),
                rom_out: Seq::new(32768, |i: int| 0u16),
            }),
    {
        let r = Cpu {
            a: Register16::new(),
            d: Register16::new(),
            pc: Counter16::new(),
            data: Ram32K::new(),
            rom: Rom32K::new(),
        };
        proof {
            assert(r@ =~= CpuState {
                a_in: 0u16,
                a_out: 0u16,
                d_in: 0u16,
                d_out: 0u16,
                pc_in: 0u16,
                pc_out: 0u16,
                data_in: Seq::new(32768, |i: int| 0u16),
                data_out: Seq::new(32768, |i: int| 0u16),
                rom_in: Seq::new(32768, |i: int| 0u16),
                rom_out: Seq::new(32768, |i: int| 0u16),
            });
        }
        r
    }

    pub fn get_a(&self) -> (r: u16)
        ensures
            r == self@.a_out,
    {
        self.a.get()
    }

    pub fn set_a(&mut self, value: u16)
        ensures
            final(self)@ == (CpuState { a_in: value, ..old(self)@ }),
            final(self).wf() == old(self).wf(),
    {
        self.a.set(value);
        proof {
            assert(self@ =~= CpuState { a_in: value, ..old(self)@ });
        }
    }

    pub fn get_d(&self) -> (r: u16)
        ensures
            r == self@.d_out,
    {
        self.d.get()
    }

    pub fn set_d(&mut self, value: u16)
        ensures
            final(self)@ == (CpuState { d_in: value, ..old(self)@ }),
            final(self).wf() == old(self).wf(),
    {
        self.d.set(value);
        proof {
            assert(self@ =~= CpuState { d_in: value, ..old(self)@ });
        }
    }

    pub fn get_pc(&self) -> (r: u16)
        ensures
            r == self@.pc_out,
    {
        self.pc.get()
    }

    pub fn set_pc(&mut self, input: u16)
        ensures
            final(self)@ == (CpuState { pc_in: input, ..old(self)@ }),
            final(self).wf() == old(self).wf(),
    {
        self.pc.set(input);
        proof {
            assert(self@ =~= CpuState { pc_in: input, ..old(self)@ });
        }
    }

    pub fn inc_pc(&mut self)
        ensures
            final(self)@ == (CpuState { pc_in: wrap_inc(old(self)@.pc_out), ..old(self)@ }),
            final(self).wf() == old(self).wf(),
    {
        self.pc.inc();
        proof {
            assert(self@ =~= CpuState { pc_in: wrap_inc(old(self)@.pc_out), ..old(self)@ });
        }
    }

    pub fn reset_pc(&mut self)
        ensures
            final(self)@ == (CpuState { pc_in: 0u16, ..old(self)@ }),
            final(self).wf() == old(self).wf(),
    {
        self.pc.reset();
        proof {
            assert(self@ =~= CpuState { pc_in: 0u16, ..old(self)@ });
        }
    }

    pub fn get_data(&self, address: usize) -> (r: u16)
        requires
            self.wf(),
            address < 32768,
        ensures
            r == self@.data_out[address as int],
    {
        self.data.get(address)
    }

    /// Commits every staged register and memory write at once.
    pub fn tick(&mut self)
        requires
            old(self).wf(),
        ensures
            final(self).wf(),
            final(self)@ == cpu_commit(old(self)@),
    {
        self.a.tick();
        self.d.tick();
        self.pc.tick();
        self.data.tick();
        proof {
            assert(self@ =~= cpu_commit(old(self)@));
        }
    }

    pub fn fetch(&self) -> (r: u16)
        requires
            self.wf(),
            self@.pc_out < 32768,
        ensures
            r == cpu_fetch(self@),
    {
        let address = self.get_pc() as usize;
        self.rom.get(address)
    }

    /// Decodes and executes one instruction, staging every write against the
    /// committed state.
    pub fn execute(&mut self, instruction: u16)
        requires
            old(self).wf(),
            cpu_exec_ok(old(self)@, instruction),
        ensures
            final(self).wf(),
            final(self)@ == cpu_exec(old(self)@, instruction),
    {
        let is_c_instruction = get_bit(instruction, 15);
        let mut jump = false;

        if is_c_instruction {
            let is_memory = get_bit(instruction, 12);
            let a_register = if is_memory {
                let address = self.get_a() as usize;
                self.data.get(address)
            } else {
                self.get_a()
            };

            let flags_alu = AluFlags {
                zx: get_bit(instruction, 11),
                nx: get_bit(instruction, 10),
                zy: get_bit(instruction, 9),
                ny: get_bit(instruction, 8),
                f: get_bit(instruction, 7),
                no: get_bit(instruction, 6),
            };

            let (output, is_zero, is_neg) = alu(self.get_d(), a_register, flags_alu);
            let is_pos = !is_zero && !is_neg;

            let d1 = get_bit(instruction, 5);
            let d2 = get_bit(instruction, 4);
            let d3 = get_bit(instruction, 3);

            if d3 {
                let address = self.get_a() as usize;
                self.data.set(address, output);
            }
            if d2 {
                self.set_d(output);
            }
            if d1 {
                self.set_a(output);
            }

            let j2 = get_bit(instruction, 2);
            let j1 = get_bit(instruction, 1);
            let j0 = get_bit(instruction, 0);
            jump = match (j2, j1, j0) {
                (false, false, false) => false,
                (false, false, true) => is_pos,
                (false, true, false) => is_zero,
                (false, true, true) => is_pos || is_zero,
                (true, false, false) => is_neg,
                (true, false, true) => !is_zero,
                (true, true, false) => is_neg || is_zero,
                (true, true, true) => true,
            };
        } else {
            self.set_a(instruction);
        }

        if jump {
            let target = self.get_a();
            self.set_pc(target);
        } else {
            self.inc_pc();
        }
        proof {
            assert(((0u16 >> 15u16) & 1) != 1) by (bit_vector);
            assert(self@ =~= cpu_exec(old(self)@, instruction));
        }
    }

    /// Whether a clock cycle would do work: the program counter is in range,
    /// the fetched word is not the halt sentinel, and a memory access stays
    /// in bounds.
    pub fn can_step(&self) -> (r: bool)
        requires
            self.wf(),
        ensures
            r == (cpu_can_clock(self@) && !cpu_halted(self@)),
    {
        let pc = self.get_pc();
        if pc >= 32768 {
            return false;
        }
        let instruction = self.fetch();
        if instruction == 0xFFFF {
            return false;
        }
        if get_bit(instruction, 15) && (get_bit(instruction, 12) || get_bit(instruction, 3)) {
            self.get_a() < 32768
        } else {
            true
        }
    }

    /// One clock cycle: fetch, execute, commit. Fetching the halt sentinel
    /// leaves the state unchanged.
    pub fn clock(&mut self)
        requires
            old(self).wf(),
            cpu_can_clock(old(self)@),
        ensures
            final(self).wf(),
            final(self)@ == cpu_clock(old(self)@),
    {
        let instruction = self.fetch();
        if instruction == 0xFFFF {
            return ;
        }
        self.execute(instruction);
        self.tick();
    }

    /// Runs up to `cycles` clock cycles, stopping early at the halt sentinel
    /// or when the next cycle would address memory out of range.
    pub fn run(&mut self, cycles: usize)
        requires
            old(self).wf(),
        ensures
            final(self).wf(),
            final(self)@ == cpu_run(old(self)@, cycles as nat),
    {
        let ghost s0 = self@;
        let mut k: usize = 0;
        while k < cycles
            invariant
                self.wf(),
                k <= cycles,
                cpu_run(s0, cycles as nat) == cpu_run(self@, (cycles - k) as nat),
            ensures
                self.wf(),
                cpu_run(s0, cycles as nat) == self@,
            decreases cycles - k,
        {
            if !self.can_step() {
                proof {
                    assert(cpu_run(self@, (cycles - k) as nat) == self@);
                }
                break ;
            }
            proof {
                assert(cpu_run(self@, (cycles - k) as nat) == cpu_run(
                    cpu_clock(self@),
                    (cycles - k - 1) as nat,
                ));
            }
            self.clock();
            k = k + 1;
        }
    }
}

/// A line of a ROM image that holds no instruction: only whitespace.
pub open spec fn image_line_blank(l: Seq<char>) -> bool {
    trim_seq(l).len() == 0
}

/// The instruction words of a ROM image's lines, in order; blank lines are
/// skipped.
pub open spec fn rom_words(lines: Seq<Seq<char>>) -> Seq<u16>
    decreases lines.len(),
{
    if lines.len() == 0 {
        Seq::empty()
    } else {
        let pre = rom_words(lines.drop_last());
        if image_line_blank(lines.last()) {
            pre
        } else {
            pre.push(bin_val(lines.last()) as u16)
        }
    }
}

pub proof fn lemma_rom_words_prefix_len(lines: Seq<Seq<char>>, i: int)
    requires
        0 <= i <= lines.len(),
    ensures
        rom_words(lines.take(i)).len() <= rom_words(lines).len(),
    decreases lines.len() - i,
{
    if i < lines.len() {
        lemma_rom_words_prefix_len(lines, i + 1);
        assert(lines.take(i + 1).drop_last() =~= lines.take(i));
        assert(lines.take(i + 1).last() == lines[i]);
    } else {
        assert(lines.take(i) =~= lines);
    }
}

pub proof fn lemma_rom_words_len(lines: Seq<Seq<char>>)
    ensures
        rom_words(lines).len() <= lines.len(),
    decreases lines.len(),
{
    if lines.len() > 0 {
        lemma_rom_words_len(lines.drop_last());
    }
}

/// Whether a sequence of image lines can be loaded: every line is blank or
/// a 16-character binary word, and the words fit the instruction memory.
pub open spec fn image_lines_ok(lines: Seq<Seq<char>>) -> bool {
    &&& forall|i: int|
        0 <= i < lines.len() ==> image_line_blank(#[trigger] lines[i]) || is_bin16(lines[i])
    &&& rom_words(lines).len() <= 32768
}

/// Whether a ROM image text can be loaded.
pub open spec fn rom_image_ok(s: Seq<char>) -> bool {
    image_lines_ok(lines_of(s))
}

/// The state after a program is loaded: the words stand at the bottom of
/// the instruction memory, committed; the cells past the program keep what
/// was staged in them; the VM bootstrap values stand committed in the five
/// pointer cells; the registers are untouched.
pub open spec fn cpu_loaded(s: CpuState, ws: Seq<u16>) -> CpuState {
    let rom = ws + s.rom_in.skip(ws.len() as int);
    let data = s.data_in.update(0, 256u16).update(1, 300u16).update(2, 400u16).update(
        3,
        3000u16,
    ).update(4, 3010u16);
    CpuState { rom_in: rom, rom_out: rom, data_in: data, data_out: data, ..s }
}

impl Cpu {
    /// Loads a program given as one binary word per line (blank lines are
    /// skipped), commits the instruction memory, and initializes the VM
    /// convention pointers: SP at the stack base 256, and LCL, ARG, THIS,
    /// THAT at their conventional test values 300, 400, 3000 and 3010.
    pub fn load_lines(&mut self, lines: &Vec<String>)
        requires
            old(self).wf(),
            image_lines_ok(lines@.map_values(|l: String| l@)),
        ensures
            final(self).wf(),
            final(self)@ == cpu_loaded(old(self)@, rom_words(lines@.map_values(|l: String| l@))),
    {
        let ghost lviews = lines@.map_values(|l: String| l@);
        let n = lines.len();
        let mut address: usize = 0;
        proof {
            assert(lviews.take(0) =~= Seq::<Seq<char>>::empty());
            assert(self@.rom_in.skip(0) =~= self@.rom_in);
        }
        for i in 0..n
            invariant
                n == lines@.len(),
                lviews == lines@.map_values(|l: String| l@),
                lviews.len() == n,
                image_lines_ok(lviews),
                self.wf(),
                old(self)@.rom_in.len() == 32768,
                address == rom_words(lviews.take(i as int)).len(),
                address <= 32768,
                self@.rom_in =~= rom_words(lviews.take(i as int)) + old(self)@.rom_in.skip(
                    address as int,
                ),
                self@.rom_out == old(self)@.rom_out,
                self@.data_in == old(self)@.data_in,
                self@.data_out == old(self)@.data_out,
                self.a == old(self).a,
                self.d == old(self).d,
                self.pc == old(self).pc,
        {
            proof {
                assert(lviews.take(i as int + 1).drop_last() =~= lviews.take(i as int));
                assert(lviews.take(i as int + 1).last() == lviews[i as int]);
                lemma_rom_words_prefix_len(lviews, i as int + 1);
            }
            proof {
                assert(lviews[i as int] == lines@[i as int]@);
            }
            let line = lines[i].as_str();
            let t = trim_str(line);
            if t.unicode_len() != 0 {
                proof {
                    assert(!image_line_blank(lviews[i as int]));
                    assert(is_bin16(lviews[i as int]));
                    assert(rom_words(lviews.take(i as int + 1)) == rom_words(
                        lviews.take(i as int),
                    ).push(bin_val(lviews[i as int]) as u16));
                }
                let word = parse_bin16(line);
                self.rom.set(address, word);
                proof {
                    assert(self@.rom_in =~= rom_words(lviews.take(i as int + 1)) + old(
                        self,
                    )@.rom_in.skip(address as int + 1));
                }
                address = address + 1;
            }
        }
        proof {
            assert(lviews.take(n as int) =~= lviews);
        }
        self.rom.tick();
        self.data.set(0, 256);
        self.data.set(1, 300);
        self.data.set(2, 400);
        self.data.set(3, 3000);
        self.data.set(4, 3010);
        self.data.tick();
        proof {
            assert(self@ =~= cpu_loaded(old(self)@, rom_words(lviews)));
        }
    }

    /// Loads a program from its text form: one binary word per line,
    /// whitespace-only lines skipped.
    pub fn load_from_string(&mut self, image: &str)
        requires
            old(self).wf(),
            rom_image_ok(image@),
        ensures
            final(self).wf(),
            final(self)@ == cpu_loaded(old(self)@, rom_words(lines_of(image@))),
    {
        let lines = split_lines(image);
        self.load_lines(&lines);
    }
}

/// Executing any instruction stages its writes but publishes nothing: every
/// committed value is exactly what it was before the call, until `tick`.
pub proof fn lemma_execute_stages_only(s: CpuState, inst: u16)
    ensures
        cpu_exec(s, inst).a_out == s.a_out,
        cpu_exec(s, inst).d_out == s.d_out,
        cpu_exec(s, inst).pc_out == s.pc_out,
        cpu_exec(s, inst).data_out == s.data_out,
        cpu_exec(s, inst).rom_out == s.rom_out,
{
}

/// Loading an address: executing `@k` stages `k` into the A register, and
/// the following commit publishes it as the value of A while the program
/// counter advances by one.
pub proof fn lemma_a_instruction(s: CpuState, k: u16)
    requires
        k < 0x8000,
    ensures
        cpu_exec(s, k).a_in == k,
        cpu_exec(s, k).pc_in == wrap_inc(s.pc_out),
        cpu_commit(cpu_exec(s, k)).a_out == k,
        cpu_commit(cpu_exec(s, k)).pc_out == wrap_inc(s.pc_out),
{
    assert((k >> 15u16) & 1 != 1) by (bit_vector)
        requires
            k < 0x8000,
    ;
}

/// `D;JGT` (encoded 1110001100000001): with the D register holding a
/// two's-complement positive value, the jump fires and the committed A value
/// is staged into the program counter.
pub proof fn lemma_jgt_jumps(s: CpuState)
    requires
        1 <= s.d_out < 0x8000,
    ensures
        cpu_exec(s, 0xE301u16).pc_in == s.a_out,
{
    let d = s.d_out;
    assert(((0xE301u16 >> 15u16) & 1) == 1 && ((0xE301u16 >> 12u16) & 1) == 0 && ((0xE301u16
        >> 11u16) & 1) == 0 && ((0xE301u16 >> 10u16) & 1) == 0 && ((0xE301u16 >> 9u16) & 1) == 1 && (
    (0xE301u16 >> 8u16) & 1) == 1 && ((0xE301u16 >> 7u16) & 1) == 0 && ((0xE301u16 >> 6u16) & 1)
        == 0 && ((0xE301u16 >> 2u16) & 1) == 0 && ((0xE301u16 >> 1u16) & 1) == 0 && ((0xE301u16
        >> 0u16) & 1) == 1 && (d & !0u16) == d && ((d >> 15u16) & 1) == 0) by (bit_vector)
        requires
            d < 0x8000,
    ;
}

/// `0;JMP` (encoded 1110101010000111): the jump fires unconditionally and
/// the committed A value is staged into the program counter.
pub proof fn lemma_jmp_unconditional(s: CpuState)
    ensures
        cpu_exec(s, 0xEA87u16).pc_in == s.a_out,
{
    assert(((0xEA87u16 >> 15u16) & 1) == 1 && ((0xEA87u16 >> 12u16) & 1) == 0 && ((0xEA87u16
        >> 11u16) & 1) == 1 && ((0xEA87u16 >> 10u16) & 1) == 0 && ((0xEA87u16 >> 9u16) & 1) == 1 && (
    (0xEA87u16 >> 8u16) & 1) == 0 && ((0xEA87u16 >> 7u16) & 1) == 1 && ((0xEA87u16 >> 6u16) & 1)
        == 0 && ((0xEA87u16 >> 2u16) & 1) == 1 && ((0xEA87u16 >> 1u16) & 1) == 1 && ((0xEA87u16
        >> 0u16) & 1) == 1 && (0u16 & 0u16) == 0) by (bit_vector);
}

/// Simultaneity of destinations: `AMD=D+1` (encoded 1110011111111000) stages
/// the A register, the D register and the memory cell at the committed A
/// address all to D + 1, in one instruction against one pre-cycle state.
pub proof fn lemma_amd_simultaneous(s: CpuState)
    requires
        s.a_out < 32768,
    ensures
        cpu_exec(s, 0xE7F8u16).a_in == wrap_inc(s.d_out),
        cpu_exec(s, 0xE7F8u16).d_in == wrap_inc(s.d_out),
        cpu_exec(s, 0xE7F8u16).data_in == s.data_in.update(s.a_out as int, wrap_inc(s.d_out)),
        cpu_exec(s, 0xE7F8u16).pc_in == wrap_inc(s.pc_out),
{
    let d = s.d_out;
    assert(((0xE7F8u16 >> 15u16) & 1) == 1 && ((0xE7F8u16 >> 12u16) & 1) == 0 && ((0xE7F8u16
        >> 11u16) & 1) == 0 && ((0xE7F8u16 >> 10u16) & 1) == 1 && ((0xE7F8u16 >> 9u16) & 1) == 1 && (
    (0xE7F8u16 >> 8u16) & 1) == 1 && ((0xE7F8u16 >> 7u16) & 1) == 1 && ((0xE7F8u16 >> 6u16) & 1)
        == 1 && ((0xE7F8u16 >> 5u16) & 1) == 1 && ((0xE7F8u16 >> 4u16) & 1) == 1 && ((0xE7F8u16
        >> 3u16) & 1) == 1 && ((0xE7F8u16 >> 2u16) & 1) == 0 && ((0xE7F8u16 >> 1u16) & 1) == 0 && ((
    0xE7F8u16 >> 0u16) & 1) == 0 && !((((!d) + (!0u16)) % 0x10000) as u16) == (((d + 1) % 0x10000) as u16))
        by (bit_vector);
}

} // verus!
